//! The parser ignores the layout of the source. Where the tokens of a
//! stream stood in the source shows in the places that the trees record,
//! and in nothing else: parsing a stream whose tokens were taken out of
//! their places gives the same trees taken out of theirs.

use vstd::prelude::*;
use crate::ast::{CallArgView, ExprView, MatchBranchView};
use crate::error::ErrorView;
use crate::grammar::{
    all_targets, arguments, assignment, at_end, binary, binary_tail, bind, block,
    block_items, braces, call, callback_pipe, combine, compound, decorate, decorated, decorators,
    define_macro, expression, finish_call, function, function_node, group, increment, is_binding,
    is_compound, is_operator, is_restart, is_target, kind_at, lambda, level_rank, list_items,
    list_literal, match_branches, match_expression, member_token, more_arguments, object_entries,
    object_literal, operand, parameter_items, parameters, parsed, plain_operator, postfix, previous_at, primary,
    program, redefine_macro, shell_expression, skip_to_restart, ternary, ternary_node, token_at,
    top_level, trailing_pipe, try_expression, try_node, unary, unsafe_expression, well_formed,
    with_optional, DecoratorView, Entries, Level, MacroMap, Outcome, Signature, Step,
};
use crate::laws::{
    all_unplaced, arg_shape, arg_shapes, branch_shape, branch_shapes, lemma_renders_shapes,
    optional_unplaced, shape, shapes, unplaced,
};
use crate::printer::renders;
use crate::soundness::{
    arguments_keeps, assignment_keeps, binary_keeps, binary_tail_keeps, block_items_keeps,
    block_keeps, braces_keeps, call_keeps, callback_pipe_keeps, decorated_keeps, decorators_keeps,
    define_macro_keeps, expression_keeps, finish_call_keeps, function_keeps, group_keeps, kept,
    kept_node, kept_tree, lambda_keeps, list_items_keeps, list_literal_keeps,
    match_branches_keeps, match_expression_keeps, more_arguments_keeps, object_entries_keeps,
    object_literal_keeps, operand_keeps, parameter_items_keeps, parameters_keeps, postfix_keeps,
    primary_keeps, ready, redefine_macro_keeps, ternary_keeps, top_level_keeps,
    trailing_pipe_keeps, try_expression_keeps, unary_keeps, wrapped_keeps,
};
use crate::token::{TokenType, TokenView};

verus! {

/// The macros with every tree taken out of its place in the source.
pub open spec fn macro_shapes(m: MacroMap) -> MacroMap {
    Map::new(|name: Seq<char>| m.dom().contains(name), |name: Seq<char>| shape(m[name]))
}

/// The decorators with every token taken out of its place.
pub open spec fn decorator_shapes(decorators: Seq<DecoratorView>) -> Seq<DecoratorView> {
    Seq::new(
        decorators.len(),
        |i: int|
            DecoratorView { name: unplaced(decorators[i].name), args: arg_shapes(decorators[i].args) },
    )
}

/// The parameters with every token taken out of its place.
pub open spec fn signature_shape(sig: Signature) -> Signature {
    Signature { params: all_unplaced(sig.params), rest: optional_unplaced(sig.rest) }
}

/// The entries with every token taken out of its place.
pub open spec fn entries_shape(entries: Entries) -> Entries {
    Entries { keys: all_unplaced(entries.keys), values: shapes(entries.values) }
}

/// An optional tree taken out of its place.
pub open spec fn optional_shape(e: Option<ExprView>) -> Option<ExprView> {
    match e {
        Some(e) => Some(shape(e)),
        None => None,
    }
}

/// A step with what it recognised, and the macros it leaves, taken out of
/// their places.
pub open spec fn shaped(s: Step<ExprView>) -> Step<ExprView> {
    Step {
        out: match s.out {
            Ok(e) => Ok(shape(e)),
            Err(k) => Err(k),
        },
        pos: s.pos,
        macros: macro_shapes(s.macros),
    }
}

/// [`shaped`], for a step that yields a run of trees.
pub open spec fn shaped_exprs(s: Step<Seq<ExprView>>) -> Step<Seq<ExprView>> {
    Step {
        out: match s.out {
            Ok(es) => Ok(shapes(es)),
            Err(k) => Err(k),
        },
        pos: s.pos,
        macros: macro_shapes(s.macros),
    }
}

/// [`shaped`], for a step that yields call arguments.
pub open spec fn shaped_args(s: Step<Seq<CallArgView>>) -> Step<Seq<CallArgView>> {
    Step {
        out: match s.out {
            Ok(args) => Ok(arg_shapes(args)),
            Err(k) => Err(k),
        },
        pos: s.pos,
        macros: macro_shapes(s.macros),
    }
}

/// [`shaped`], for a step that yields parameters.
pub open spec fn shaped_signature(s: Step<Signature>) -> Step<Signature> {
    Step {
        out: match s.out {
            Ok(sig) => Ok(signature_shape(sig)),
            Err(k) => Err(k),
        },
        pos: s.pos,
        macros: macro_shapes(s.macros),
    }
}

/// [`shaped`], for a step that yields object entries.
pub open spec fn shaped_entries(s: Step<Entries>) -> Step<Entries> {
    Step {
        out: match s.out {
            Ok(entries) => Ok(entries_shape(entries)),
            Err(k) => Err(k),
        },
        pos: s.pos,
        macros: macro_shapes(s.macros),
    }
}

/// [`shaped`], for a step that yields match branches.
pub open spec fn shaped_branches(s: Step<Seq<MatchBranchView>>) -> Step<Seq<MatchBranchView>> {
    Step {
        out: match s.out {
            Ok(branches) => Ok(branch_shapes(branches)),
            Err(k) => Err(k),
        },
        pos: s.pos,
        macros: macro_shapes(s.macros),
    }
}

/// [`shaped`], for a step that yields decorators.
pub open spec fn shaped_decorators(s: Step<Seq<DecoratorView>>) -> Step<Seq<DecoratorView>> {
    Step {
        out: match s.out {
            Ok(decorators) => Ok(decorator_shapes(decorators)),
            Err(k) => Err(k),
        },
        pos: s.pos,
        macros: macro_shapes(s.macros),
    }
}

/// An error taken out of its place in the source.
pub open spec fn unplaced_error(error: ErrorView) -> ErrorView {
    ErrorView { message: error.message, line: 0, col: 0 }
}

/// A run of errors taken out of their places.
pub open spec fn unplaced_errors(errors: Seq<ErrorView>) -> Seq<ErrorView> {
    Seq::new(errors.len(), |i: int| unplaced_error(errors[i]))
}

/// What a stream yields, taken out of its place in the source.
pub open spec fn outcome_shape(outcome: Outcome) -> Outcome {
    Outcome {
        nodes: shapes(outcome.nodes),
        errors: unplaced_errors(outcome.errors),
        pos: outcome.pos,
        macros: macro_shapes(outcome.macros),
    }
}

proof fn lemma_shapes_push(items: Seq<ExprView>, e: ExprView)
    ensures
        shapes(items.push(e)) == shapes(items).push(shape(e)),
{
    assert(shapes(items.push(e)) =~= shapes(items).push(shape(e)));
}

proof fn lemma_arg_shapes_push(args: Seq<CallArgView>, a: CallArgView)
    ensures
        arg_shapes(args.push(a)) == arg_shapes(args).push(arg_shape(a)),
{
    assert(arg_shapes(args.push(a)) =~= arg_shapes(args).push(arg_shape(a)));
}

proof fn lemma_unplaced_push(tokens: Seq<TokenView>, t: TokenView)
    ensures
        all_unplaced(tokens.push(t)) == all_unplaced(tokens).push(unplaced(t)),
{
    assert(all_unplaced(tokens.push(t)) =~= all_unplaced(tokens).push(unplaced(t)));
}

proof fn lemma_macro_shapes_insert(m: MacroMap, name: Seq<char>, e: ExprView)
    ensures
        macro_shapes(m.insert(name, e)) == macro_shapes(m).insert(name, shape(e)),
{
    assert(macro_shapes(m.insert(name, e)) =~= macro_shapes(m).insert(name, shape(e)));
}

proof fn lemma_all_targets_shapes(items: Seq<ExprView>)
    ensures
        all_targets(shapes(items)) == all_targets(items),
{
    if all_targets(items) {
        assert forall|i: int| 0 <= i < shapes(items).len() implies is_target(
            #[trigger] shapes(items)[i],
        ) by {
            assert(is_target(items[i]));
        }
    } else {
        let i = choose|i: int| 0 <= i < items.len() && !is_target(#[trigger] items[i]);
        assert(!is_target(shapes(items)[i]));
    }
}

proof fn lemma_bind_shape(left: ExprView, right: ExprView, kind: TokenType, pos: nat, m: MacroMap)
    ensures
        bind(shape(left), shape(right), kind, pos, macro_shapes(m)) == shaped(
            bind(left, right, kind, pos, m),
        ),
{
    match left {
        ExprView::ObjectLiteral { token, keys, values } => {
            lemma_all_targets_shapes(values);
        },
        ExprView::ListLiteral { token, values } => {
            lemma_all_targets_shapes(values);
        },
        ExprView::Get { instance, value, token } => {
            let member = *value;
            assert(shape(left) == (ExprView::Get {
                instance: Box::new(shape(*instance)),
                value: Box::new(shape(member)),
                token: unplaced(token),
            }));
            match member {
                ExprView::Variable { name } => {
                    assert(shape(member) == (ExprView::Variable { name: unplaced(name) }));
                },
                _ => {
                    assert(!(shape(member) is Variable));
                },
            }
            assert(member_token(shape(member), unplaced(token)) == unplaced(
                member_token(member, token),
            ));
            let made = ExprView::SetMember {
                instance,
                member: value,
                token: member_token(member, token),
                value: Box::new(right),
            };
            assert(shape(made) == (ExprView::SetMember {
                instance: Box::new(shape(*instance)),
                member: Box::new(shape(member)),
                token: unplaced(member_token(member, token)),
                value: Box::new(shape(right)),
            }));
        },
        _ => {},
    }
}

proof fn lemma_compound_shape(left: ExprView, right: ExprView, op: TokenView, pos: nat, m: MacroMap)
    ensures
        compound(shape(left), shape(right), unplaced(op), pos, macro_shapes(m)) == shaped(
            compound(left, right, op, pos, m),
        ),
{
    let sign = op.with_kind(plain_operator(op.kind));
    assert(unplaced(op).with_kind(plain_operator(op.kind)) == unplaced(sign));
    match left {
        ExprView::Variable { name } => {
            let sum = ExprView::Binary { left: Box::new(left), right: Box::new(right), op: sign };
            assert(shape(sum) == (ExprView::Binary {
                left: Box::new(shape(left)),
                right: Box::new(shape(right)),
                op: unplaced(sign),
            }));
        },
        _ => {},
    }
}

proof fn lemma_increment_shape(left: ExprView, op: TokenView, pos: nat, m: MacroMap)
    ensures
        increment(shape(left), unplaced(op), pos, macro_shapes(m)) == shaped(
            increment(left, op, pos, m),
        ),
{
    let kind = if op.kind == TokenType::DPlus {
        TokenType::Plus
    } else {
        TokenType::Minus
    };
    let sign = op.with_kind(kind);
    assert(unplaced(op).with_kind(kind) == unplaced(sign));
    match left {
        ExprView::Variable { name } => {
            let one = ExprView::IntegerLiteral { token: sign, value: 1 };
            assert(shape(one) == (ExprView::IntegerLiteral { token: unplaced(sign), value: 1 }));
            let sum = ExprView::Binary { left: Box::new(left), right: Box::new(one), op: sign };
            assert(shape(sum) == (ExprView::Binary {
                left: Box::new(shape(left)),
                right: Box::new(shape(one)),
                op: unplaced(sign),
            }));
        },
        _ => {},
    }
}

proof fn lemma_decorate_shape(decorators: Seq<DecoratorView>, inner: ExprView, mark: TokenView)
    ensures
        decorate(decorator_shapes(decorators), shape(inner), unplaced(mark)) == shape(
            decorate(decorators, inner, mark),
        ),
    decreases decorators.len(),
{
    if decorators.len() > 0 {
        lemma_decorate_shape(decorators.drop_last(), inner, mark);
        assert(decorator_shapes(decorators).drop_last() =~= decorator_shapes(
            decorators.drop_last(),
        ));
        let wrapped = decorate(decorators.drop_last(), inner, mark);
        let own = decorators.last().args;
        let first = CallArgView::Positional(wrapped);
        let callee = ExprView::Variable { name: decorators.last().name };
        assert(shape(callee) == (ExprView::Variable { name: unplaced(decorators.last().name) }));
        assert(arg_shape(first) == CallArgView::Positional(shape(wrapped)));
        assert(arg_shapes(seq![first] + own) =~= seq![arg_shape(first)] + arg_shapes(own));
        let made = ExprView::Call { callee: Box::new(callee), args: seq![first] + own, token: mark };
        assert(shape(made) == (ExprView::Call {
            callee: Box::new(shape(callee)),
            args: arg_shapes(seq![first] + own),
            token: unplaced(mark),
        }));
    }
}

proof fn lemma_function_node_shape(
    public: bool,
    name: Option<TokenView>,
    sig: Signature,
    body: ExprView,
    decorators: Seq<DecoratorView>,
    mark: TokenView,
    pos: nat,
    m: MacroMap,
)
    ensures
        function_node(
            public,
            optional_unplaced(name),
            signature_shape(sig),
            shape(body),
            decorator_shapes(decorators),
            unplaced(mark),
            pos,
            macro_shapes(m),
        ) == shaped(function_node(public, name, sig, body, decorators, mark, pos, m)),
{
    if decorators.len() > 0 {
        let bare = ExprView::Func {
            public: false,
            name: None,
            params: sig.params,
            rest: sig.rest,
            body: Box::new(body),
        };
        assert(shape(bare) == (ExprView::Func {
            public: false,
            name: None,
            params: all_unplaced(sig.params),
            rest: optional_unplaced(sig.rest),
            body: Box::new(shape(body)),
        }));
        lemma_decorate_shape(decorators, bare, mark);
        match name {
            Some(n) => {
                let target = ExprView::Variable { name: n };
                assert(shape(target) == (ExprView::Variable { name: unplaced(n) }));
                let made = ExprView::Assign {
                    init: true,
                    public,
                    mutable: false,
                    token: n,
                    left: Box::new(target),
                    right: Box::new(decorate(decorators, bare, mark)),
                };
                assert(shape(made) == (ExprView::Assign {
                    init: true,
                    public,
                    mutable: false,
                    token: unplaced(n),
                    left: Box::new(shape(target)),
                    right: Box::new(shape(decorate(decorators, bare, mark))),
                }));
            },
            None => {},
        }
    }
}

proof fn lemma_two_branches_shape(first: MatchBranchView, second: MatchBranchView)
    ensures
        branch_shapes(seq![first, second]) == seq![branch_shape(first), branch_shape(second)],
{
    assert(branch_shapes(seq![first, second]) =~= seq![branch_shape(first), branch_shape(second)]);
}

proof fn lemma_ternary_node_shape(mark: TokenView, cond: ExprView, yes: ExprView, no: ExprView)
    ensures
        ternary_node(unplaced(mark), shape(cond), shape(yes), shape(no)) == shape(
            ternary_node(mark, cond, yes, no),
        ),
{
    let truth = ExprView::BoolLiteral { token: mark, payload: true };
    let other = ExprView::Underscore { token: mark };
    assert(shape(truth) == (ExprView::BoolLiteral { token: unplaced(mark), payload: true }));
    assert(shape(other) == (ExprView::Underscore { token: unplaced(mark) }));
    let first = MatchBranchView { target: truth, body: yes };
    let second = MatchBranchView { target: other, body: no };
    assert(branch_shape(first) == (MatchBranchView { target: shape(truth), body: shape(yes) }));
    assert(branch_shape(second) == (MatchBranchView { target: shape(other), body: shape(no) }));
    lemma_two_branches_shape(first, second);
    let made = ExprView::Match {
        token: mark,
        condition: Box::new(cond),
        branches: seq![first, second],
    };
    assert(shape(made) == (ExprView::Match {
        token: unplaced(mark),
        condition: Box::new(shape(cond)),
        branches: branch_shapes(seq![first, second]),
    }));
}

proof fn lemma_try_node_shape(mark: TokenView, result: ExprView, handler: ExprView, success: ExprView)
    ensures
        try_node(unplaced(mark), shape(result), shape(handler), shape(success)) == shape(
            try_node(mark, result, handler, success),
        ),
{
    let probe = TokenView { kind: TokenType::Id, lexeme: "error?"@, line: mark.line, col: mark.col };
    let asked = TokenView {
        kind: TokenType::Id,
        lexeme: "error?"@,
        line: unplaced(mark).line,
        col: unplaced(mark).col,
    };
    assert(asked == unplaced(probe));
    let callee = ExprView::Variable { name: probe };
    assert(shape(callee) == (ExprView::Variable { name: unplaced(probe) }));
    let arg = CallArgView::Positional(result);
    assert(arg_shape(arg) == CallArgView::Positional(shape(result)));
    assert(arg_shapes(seq![arg]) =~= seq![arg_shape(arg)]);
    let condition = ExprView::Call { callee: Box::new(callee), args: seq![arg], token: mark };
    assert(shape(condition) == (ExprView::Call {
        callee: Box::new(shape(callee)),
        args: arg_shapes(seq![arg]),
        token: unplaced(mark),
    }));
    let truth = ExprView::BoolLiteral { token: mark, payload: true };
    let falsity = ExprView::BoolLiteral { token: mark, payload: false };
    assert(shape(truth) == (ExprView::BoolLiteral { token: unplaced(mark), payload: true }));
    assert(shape(falsity) == (ExprView::BoolLiteral { token: unplaced(mark), payload: false }));
    let first = MatchBranchView { target: truth, body: handler };
    let second = MatchBranchView { target: falsity, body: success };
    assert(branch_shape(first) == (MatchBranchView { target: shape(truth), body: shape(handler) }));
    assert(branch_shape(second) == (MatchBranchView {
        target: shape(falsity),
        body: shape(success),
    }));
    lemma_two_branches_shape(first, second);
    let made = ExprView::Match {
        token: mark,
        condition: Box::new(condition),
        branches: seq![first, second],
    };
    assert(shape(made) == (ExprView::Match {
        token: unplaced(mark),
        condition: Box::new(shape(condition)),
        branches: branch_shapes(seq![first, second]),
    }));
}

/// Skipping to a restart point looks at the kinds of the tokens alone.
#[verifier::rlimit(80)]
pub proof fn skip_ignores_layout(ts: Seq<TokenView>, pos: nat)
    ensures
        skip_to_restart(all_unplaced(ts), pos) == skip_to_restart(ts, pos),
    decreases ts.len() - pos,
{
    if !at_end(ts, pos) && !is_restart(kind_at(ts, pos)) {
        skip_ignores_layout(ts, pos + 1);
    }
}

/// An expression ignores the layout of the source.
#[verifier::rlimit(80)]
pub proof fn expression_ignores_layout(ts: Seq<TokenView>, pos: nat, m: MacroMap)
    requires
        ready(ts, pos, m),
    ensures
        kept_tree(ts, pos, expression(ts, pos, m)),
        expression(all_unplaced(ts), pos, macro_shapes(m)) == shaped(expression(ts, pos, m)),
    decreases ts.len() - pos, 40nat,
{
    expression_keeps(ts, pos, m);
    assignment_ignores_layout(ts, pos, m);
}

#[verifier::rlimit(80)]
proof fn assignment_ignores_layout(ts: Seq<TokenView>, pos: nat, m: MacroMap)
    requires
        ready(ts, pos, m),
    ensures
        kept_tree(ts, pos, assignment(ts, pos, m)),
        assignment(all_unplaced(ts), pos, macro_shapes(m)) == shaped(assignment(ts, pos, m)),
    decreases ts.len() - pos, 39nat,
{
    assignment_keeps(ts, pos, m);
    binary_ignores_layout(ts, pos, m, Level::Or);
    let target = binary(ts, pos, m, Level::Or);
    if target.carries_on(ts, pos) {
        let kind = kind_at(ts, target.pos);
        if is_binding(kind) {
            assignment_ignores_layout(ts, target.pos + 1, target.macros);
            let value = assignment(ts, target.pos + 1, target.macros);
            if value.out is Ok {
                lemma_bind_shape(target.value(), value.value(), kind, value.pos, value.macros);
            }
        } else if is_compound(kind) {
            assignment_ignores_layout(ts, target.pos + 1, target.macros);
            let value = assignment(ts, target.pos + 1, target.macros);
            if value.out is Ok {
                lemma_compound_shape(
                    target.value(),
                    value.value(),
                    token_at(ts, target.pos),
                    value.pos,
                    value.macros,
                );
            }
        } else if kind == TokenType::DPlus || kind == TokenType::DMinus {
            lemma_increment_shape(
                target.value(),
                token_at(ts, target.pos),
                target.pos + 1,
                target.macros,
            );
        }
    }
}

#[verifier::rlimit(80)]
proof fn operand_ignores_layout(ts: Seq<TokenView>, pos: nat, m: MacroMap, level: Level)
    requires
        ready(ts, pos, m),
    ensures
        kept_tree(ts, pos, operand(ts, pos, m, level)),
        operand(all_unplaced(ts), pos, macro_shapes(m), level) == shaped(operand(ts, pos, m, level)),
    decreases ts.len() - pos, 21 + 2 * level_rank(level),
{
    operand_keeps(ts, pos, m, level);
    match level {
        Level::Factor => unary_ignores_layout(ts, pos, m),
        Level::Term => binary_ignores_layout(ts, pos, m, Level::Factor),
        Level::Comparison => binary_ignores_layout(ts, pos, m, Level::Term),
        Level::Equality => binary_ignores_layout(ts, pos, m, Level::Comparison),
        Level::And => binary_ignores_layout(ts, pos, m, Level::Equality),
        Level::Or => binary_ignores_layout(ts, pos, m, Level::And),
    }
}

#[verifier::rlimit(80)]
proof fn binary_ignores_layout(ts: Seq<TokenView>, pos: nat, m: MacroMap, level: Level)
    requires
        ready(ts, pos, m),
    ensures
        kept_tree(ts, pos, binary(ts, pos, m, level)),
        binary(all_unplaced(ts), pos, macro_shapes(m), level) == shaped(binary(ts, pos, m, level)),
    decreases ts.len() - pos, 22 + 2 * level_rank(level),
{
    binary_keeps(ts, pos, m, level);
    operand_ignores_layout(ts, pos, m, level);
    let first = operand(ts, pos, m, level);
    if first.carries_on(ts, pos) {
        binary_tail_ignores_layout(ts, first.pos, first.macros, level, first.value());
    }
}

#[verifier::rlimit(80)]
proof fn binary_tail_ignores_layout(
    ts: Seq<TokenView>,
    pos: nat,
    m: MacroMap,
    level: Level,
    left: ExprView,
)
    requires
        ready(ts, pos, m),
        !(left is End),
    ensures
        kept_node(ts, pos, binary_tail(ts, pos, m, level, left)),
        binary_tail(all_unplaced(ts), pos, macro_shapes(m), level, shape(left)) == shaped(
            binary_tail(ts, pos, m, level, left),
        ),
    decreases ts.len() - pos, 20nat,
{
    binary_tail_keeps(ts, pos, m, level, left);
    if is_operator(level, kind_at(ts, pos)) {
        operand_ignores_layout(ts, pos + 1, m, level);
        let right = operand(ts, pos + 1, m, level);
        if right.carries_on(ts, pos + 1) {
            binary_tail_ignores_layout(
                ts,
                right.pos,
                right.macros,
                level,
                combine(level, left, right.value(), token_at(ts, pos)),
            );
        }
    }
}

#[verifier::rlimit(80)]
proof fn unary_ignores_layout(ts: Seq<TokenView>, pos: nat, m: MacroMap)
    requires
        ready(ts, pos, m),
    ensures
        kept_tree(ts, pos, unary(ts, pos, m)),
        unary(all_unplaced(ts), pos, macro_shapes(m)) == shaped(unary(ts, pos, m)),
    decreases ts.len() - pos, 15nat,
{
    unary_keeps(ts, pos, m);
    let kind = kind_at(ts, pos);
    if kind == TokenType::Bang || kind == TokenType::Not || kind == TokenType::Minus {
        unary_ignores_layout(ts, pos + 1, m);
    } else {
        call_ignores_layout(ts, pos, m, None);
    }
}

#[verifier::rlimit(80)]
proof fn call_ignores_layout(ts: Seq<TokenView>, pos: nat, m: MacroMap, piped: Option<ExprView>)
    requires
        ready(ts, pos, m),
    ensures
        kept_tree(ts, pos, call(ts, pos, m, piped)),
        call(all_unplaced(ts), pos, macro_shapes(m), optional_shape(piped)) == shaped(
            call(ts, pos, m, piped),
        ),
    decreases ts.len() - pos, 14nat,
{
    call_keeps(ts, pos, m, piped);
    primary_ignores_layout(ts, pos, m);
    let head = primary(ts, pos, m);
    if head.carries_on(ts, pos) {
        postfix_ignores_layout(ts, head.pos, head.macros, head.value(), piped);
    }
}

#[verifier::rlimit(80)]
proof fn postfix_ignores_layout(
    ts: Seq<TokenView>,
    pos: nat,
    m: MacroMap,
    expr: ExprView,
    piped: Option<ExprView>,
)
    requires
        ready(ts, pos, m),
        !(expr is End),
    ensures
        kept_node(ts, pos, postfix(ts, pos, m, expr, piped)),
        postfix(all_unplaced(ts), pos, macro_shapes(m), shape(expr), optional_shape(piped))
            == shaped(postfix(ts, pos, m, expr, piped)),
    decreases ts.len() - pos, 13nat,
{
    postfix_keeps(ts, pos, m, expr, piped);
    let kind = kind_at(ts, pos);
    if kind == TokenType::LParen {
        finish_call_ignores_layout(ts, pos + 1, m, expr, piped);
        let made = finish_call(ts, pos + 1, m, expr, piped);
        if made.carries_on(ts, pos + 1) {
            postfix_ignores_layout(ts, made.pos, made.macros, made.value(), None);
        }
    } else if kind == TokenType::Dot {
        binary_ignores_layout(ts, pos + 1, m, Level::Or);
        let member = binary(ts, pos + 1, m, Level::Or);
        if member.carries_on(ts, pos + 1) {
            postfix_ignores_layout(
                ts,
                member.pos,
                member.macros,
                ExprView::Get {
                    instance: Box::new(expr),
                    value: Box::new(member.value()),
                    token: token_at(ts, pos),
                },
                piped,
            );
        }
    } else if kind == TokenType::RPipe {
        call_ignores_layout(ts, pos + 1, m, Some(expr));
    } else if kind == TokenType::Question {
        ternary_ignores_layout(ts, pos + 1, m, expr, token_at(ts, pos));
        let made = ternary(ts, pos + 1, m, expr, token_at(ts, pos));
        if made.carries_on(ts, pos + 1) {
            postfix_ignores_layout(ts, made.pos, made.macros, made.value(), piped);
        }
    }
}

#[verifier::rlimit(80)]
proof fn ternary_ignores_layout(
    ts: Seq<TokenView>,
    pos: nat,
    m: MacroMap,
    cond: ExprView,
    mark: TokenView,
)
    requires
        ready(ts, pos, m),
    ensures
        kept_tree(ts, pos, ternary(ts, pos, m, cond, mark)),
        ternary(all_unplaced(ts), pos, macro_shapes(m), shape(cond), unplaced(mark)) == shaped(
            ternary(ts, pos, m, cond, mark),
        ),
    decreases ts.len() - pos, 51nat,
{
    ternary_keeps(ts, pos, m, cond, mark);
    expression_ignores_layout(ts, pos, m);
    let yes = expression(ts, pos, m);
    if yes.carries_on(ts, pos) && kind_at(ts, yes.pos) == TokenType::Colon {
        expression_ignores_layout(ts, yes.pos + 1, yes.macros);
        let no = expression(ts, yes.pos + 1, yes.macros);
        if no.out is Ok {
            lemma_ternary_node_shape(mark, cond, yes.value(), no.value());
        }
    }
}

#[verifier::rlimit(80)]
proof fn finish_call_ignores_layout(
    ts: Seq<TokenView>,
    pos: nat,
    m: MacroMap,
    callee: ExprView,
    piped: Option<ExprView>,
)
    requires
        ready(ts, pos, m),
    ensures
        kept_tree(ts, pos, finish_call(ts, pos, m, callee, piped)),
        finish_call(all_unplaced(ts), pos, macro_shapes(m), shape(callee), optional_shape(piped))
            == shaped(finish_call(ts, pos, m, callee, piped)),
    decreases ts.len() - pos, 53nat,
{
    finish_call_keeps(ts, pos, m, callee, piped);
    let first = match piped {
        Some(p) => seq![CallArgView::Positional(p)],
        None => Seq::empty(),
    };
    let first2 = match optional_shape(piped) {
        Some(p) => seq![CallArgView::Positional(p)],
        None => Seq::empty(),
    };
    assert(first2 =~= arg_shapes(first));
    arguments_ignores_layout(ts, pos, m, first);
    let args = arguments(ts, pos, m, first);
    if args.carries_on(ts, pos) && kind_at(ts, args.pos) == TokenType::RParen {
        trailing_pipe_ignores_layout(ts, args.pos + 1, args.macros, args.value());
        let trailing = trailing_pipe(ts, args.pos + 1, args.macros, args.value());
        if trailing.carries_on(ts, args.pos + 1) {
            callback_pipe_ignores_layout(ts, trailing.pos, trailing.macros, trailing.value());
        }
    }
}

#[verifier::rlimit(80)]
proof fn arguments_ignores_layout(
    ts: Seq<TokenView>,
    pos: nat,
    m: MacroMap,
    acc: Seq<CallArgView>,
)
    requires
        ready(ts, pos, m),
    ensures
        kept(ts, pos, arguments(ts, pos, m, acc)),
        arguments(all_unplaced(ts), pos, macro_shapes(m), arg_shapes(acc)) == shaped_args(
            arguments(ts, pos, m, acc),
        ),
    decreases ts.len() - pos, 52nat,
{
    arguments_keeps(ts, pos, m, acc);
    if kind_at(ts, pos) != TokenType::RParen {
        more_arguments_ignores_layout(ts, pos, m, acc);
    }
}

#[verifier::rlimit(80)]
proof fn more_arguments_ignores_layout(
    ts: Seq<TokenView>,
    pos: nat,
    m: MacroMap,
    acc: Seq<CallArgView>,
)
    requires
        ready(ts, pos, m),
    ensures
        kept(ts, pos, more_arguments(ts, pos, m, acc)),
        more_arguments(all_unplaced(ts), pos, macro_shapes(m), arg_shapes(acc)) == shaped_args(
            more_arguments(ts, pos, m, acc),
        ),
    decreases ts.len() - pos, 51nat,
{
    more_arguments_keeps(ts, pos, m, acc);
    let spread = kind_at(ts, pos) == TokenType::Ellipsis;
    let start = if spread {
        pos + 1
    } else {
        pos
    };
    expression_ignores_layout(ts, start, m);
    let arg = expression(ts, start, m);
    if arg.carries_on(ts, start) {
        let one = if spread {
            CallArgView::Unpacking(arg.value())
        } else {
            CallArgView::Positional(arg.value())
        };
        lemma_arg_shapes_push(acc, one);
        if kind_at(ts, arg.pos) == TokenType::Comma {
            more_arguments_ignores_layout(ts, arg.pos + 1, arg.macros, acc.push(one));
        }
    }
}

#[verifier::rlimit(80)]
proof fn trailing_pipe_ignores_layout(
    ts: Seq<TokenView>,
    pos: nat,
    m: MacroMap,
    args: Seq<CallArgView>,
)
    requires
        ready(ts, pos, m),
    ensures
        kept(ts, pos, trailing_pipe(ts, pos, m, args)),
        trailing_pipe(all_unplaced(ts), pos, macro_shapes(m), arg_shapes(args)) == shaped_args(
            trailing_pipe(ts, pos, m, args),
        ),
    decreases ts.len() - pos, 51nat,
{
    trailing_pipe_keeps(ts, pos, m, args);
    if kind_at(ts, pos) == TokenType::LPipe {
        expression_ignores_layout(ts, pos + 1, m);
        let arg = expression(ts, pos + 1, m);
        if arg.out is Ok {
            lemma_arg_shapes_push(args, CallArgView::Positional(arg.value()));
        }
    }
}

#[verifier::rlimit(80)]
proof fn callback_pipe_ignores_layout(
    ts: Seq<TokenView>,
    pos: nat,
    m: MacroMap,
    args: Seq<CallArgView>,
)
    requires
        ready(ts, pos, m),
    ensures
        kept(ts, pos, callback_pipe(ts, pos, m, args)),
        callback_pipe(all_unplaced(ts), pos, macro_shapes(m), arg_shapes(args)) == shaped_args(
            callback_pipe(ts, pos, m, args),
        ),
    decreases ts.len() - pos, 51nat,
{
    callback_pipe_keeps(ts, pos, m, args);
    if kind_at(ts, pos) == TokenType::LTilde {
        if kind_at(ts, pos + 1) == TokenType::LParen {
            parameters_ignores_layout(ts, pos + 1, m);
        }
        let sig = if kind_at(ts, pos + 1) == TokenType::LParen {
            parameters(ts, pos + 1, m)
        } else {
            Step::ok(Signature { params: Seq::empty(), rest: None }, pos + 1, m)
        };
        assert(all_unplaced(Seq::<TokenView>::empty()) =~= Seq::<TokenView>::empty());
        if sig.carries_on(ts, pos + 1) {
            expression_ignores_layout(ts, sig.pos, sig.macros);
            let body = expression(ts, sig.pos, sig.macros);
            if body.out is Ok {
                lemma_arg_shapes_push(
                    args,
                    CallArgView::Positional(
                        ExprView::Func {
                            public: false,
                            name: None,
                            params: sig.value().params,
                            rest: sig.value().rest,
                            body: Box::new(body.value()),
                        },
                    ),
                );
            }
        }
    }
}

/// A parameter list ignores the layout of the source.
#[verifier::rlimit(80)]
pub proof fn parameters_ignores_layout(ts: Seq<TokenView>, pos: nat, m: MacroMap)
    requires
        ready(ts, pos, m),
    ensures
        kept(ts, pos, parameters(ts, pos, m)),
        parameters(all_unplaced(ts), pos, macro_shapes(m)) == shaped_signature(
            parameters(ts, pos, m),
        ),
{
    parameters_keeps(ts, pos, m);
    let none = Signature { params: Seq::empty(), rest: None };
    assert(all_unplaced(Seq::<TokenView>::empty()) =~= Seq::<TokenView>::empty());
    assert(signature_shape(none) == none);
    if kind_at(ts, pos) == TokenType::LParen && kind_at(ts, pos + 1) != TokenType::RParen {
        parameter_items_ignores_layout(ts, pos + 1, m, none);
    }
}

#[verifier::rlimit(80)]
proof fn parameter_items_ignores_layout(ts: Seq<TokenView>, pos: nat, m: MacroMap, sig: Signature)
    requires
        ready(ts, pos, m),
    ensures
        kept(ts, pos, parameter_items(ts, pos, m, sig)),
        parameter_items(all_unplaced(ts), pos, macro_shapes(m), signature_shape(sig))
            == shaped_signature(parameter_items(ts, pos, m, sig)),
    decreases ts.len() - pos,
{
    parameter_items_keeps(ts, pos, m, sig);
    if sig.rest is None {
        let kind = kind_at(ts, pos);
        let variadic = kind == TokenType::Id && kind_at(ts, pos + 1) == TokenType::Plus;
        let plain = (kind == TokenType::Id && !variadic) || kind == TokenType::Underscore;
        let grown = Signature {
            params: if plain {
                sig.params.push(token_at(ts, pos))
            } else {
                sig.params
            },
            rest: if variadic {
                Some(token_at(ts, pos))
            } else {
                None
            },
        };
        let next = if variadic {
            pos + 2
        } else if plain {
            pos + 1
        } else {
            pos
        };
        if plain {
            lemma_unplaced_push(sig.params, token_at(ts, pos));
        }
        if kind_at(ts, next) == TokenType::Comma {
            parameter_items_ignores_layout(ts, next + 1, m, grown);
        }
    }
}

#[verifier::rlimit(80)]
proof fn primary_ignores_layout(ts: Seq<TokenView>, pos: nat, m: MacroMap)
    requires
        ready(ts, pos, m),
    ensures
        kept_tree(ts, pos, primary(ts, pos, m)),
        primary(all_unplaced(ts), pos, macro_shapes(m)) == shaped(primary(ts, pos, m)),
    decreases ts.len() - pos, 12nat,
{
    primary_keeps(ts, pos, m);
    let kind = kind_at(ts, pos);
    let token = token_at(ts, pos);
    let none = Seq::<DecoratorView>::empty();
    assert(decorator_shapes(none) =~= none);
    if kind == TokenType::LParen {
        group_ignores_layout(ts, pos + 1, m);
    } else if kind == TokenType::LBracket {
        list_literal_ignores_layout(ts, pos + 1, m, token);
    } else if kind == TokenType::LBrace {
        braces_ignores_layout(ts, pos + 1, m, token);
    } else if kind == TokenType::MinusGT {
        lambda_ignores_layout(ts, pos + 1, m);
    } else if kind == TokenType::Func {
        function_ignores_layout(ts, pos, m, false, none);
    } else if kind == TokenType::Public {
        function_ignores_layout(ts, pos + 1, m, true, none);
    } else if kind == TokenType::At {
        decorated_ignores_layout(ts, pos + 1, m);
    } else if kind == TokenType::Match {
        match_expression_ignores_layout(ts, pos + 1, m, token);
    } else if kind == TokenType::Try {
        try_expression_ignores_layout(ts, pos + 1, m, token);
    } else if kind == TokenType::Unsafe {
        wrapped_ignores_layout(ts, pos + 1, m, token);
    } else if kind == TokenType::Dollar {
        wrapped_ignores_layout(ts, pos + 1, m, token);
    } else if kind == TokenType::Def {
        define_macro_ignores_layout(ts, pos + 1, m);
    } else if kind == TokenType::Redef {
        redefine_macro_ignores_layout(ts, pos + 1, m);
    }
}

#[verifier::rlimit(80)]
proof fn group_ignores_layout(ts: Seq<TokenView>, pos: nat, m: MacroMap)
    requires
        ready(ts, pos, m),
    ensures
        kept_tree(ts, pos, group(ts, pos, m)),
        group(all_unplaced(ts), pos, macro_shapes(m)) == shaped(group(ts, pos, m)),
    decreases ts.len() - pos, 51nat,
{
    group_keeps(ts, pos, m);
    expression_ignores_layout(ts, pos, m);
}

#[verifier::rlimit(80)]
proof fn list_literal_ignores_layout(ts: Seq<TokenView>, pos: nat, m: MacroMap, mark: TokenView)
    requires
        ready(ts, pos, m),
    ensures
        kept_tree(ts, pos, list_literal(ts, pos, m, mark)),
        list_literal(all_unplaced(ts), pos, macro_shapes(m), unplaced(mark)) == shaped(
            list_literal(ts, pos, m, mark),
        ),
    decreases ts.len() - pos, 51nat,
{
    list_literal_keeps(ts, pos, m, mark);
    assert(shapes(Seq::<ExprView>::empty()) =~= Seq::<ExprView>::empty());
    list_items_ignores_layout(ts, pos, m, Seq::empty());
}

#[verifier::rlimit(80)]
proof fn list_items_ignores_layout(ts: Seq<TokenView>, pos: nat, m: MacroMap, acc: Seq<ExprView>)
    requires
        ready(ts, pos, m),
    ensures
        kept(ts, pos, list_items(ts, pos, m, acc)),
        list_items(all_unplaced(ts), pos, macro_shapes(m), shapes(acc)) == shaped_exprs(
            list_items(ts, pos, m, acc),
        ),
    decreases ts.len() - pos, 50nat,
{
    list_items_keeps(ts, pos, m, acc);
    if !(kind_at(ts, pos) == TokenType::RBracket || at_end(ts, pos)) {
        expression_ignores_layout(ts, pos, m);
        let item = expression(ts, pos, m);
        if item.carries_on(ts, pos) {
            lemma_shapes_push(acc, item.value());
            if kind_at(ts, item.pos) == TokenType::Comma {
                list_items_ignores_layout(ts, item.pos + 1, item.macros, acc.push(item.value()));
            }
        }
    }
}

#[verifier::rlimit(80)]
proof fn braces_ignores_layout(ts: Seq<TokenView>, pos: nat, m: MacroMap, mark: TokenView)
    requires
        ready(ts, pos, m),
    ensures
        kept_tree(ts, pos, braces(ts, pos, m, mark)),
        braces(all_unplaced(ts), pos, macro_shapes(m), unplaced(mark)) == shaped(
            braces(ts, pos, m, mark),
        ),
    decreases ts.len() - pos, 53nat,
{
    braces_keeps(ts, pos, m, mark);
    assert(shapes(Seq::<ExprView>::empty()) =~= Seq::<ExprView>::empty());
    assert(all_unplaced(Seq::<TokenView>::empty()) =~= Seq::<TokenView>::empty());
    if kind_at(ts, pos) != TokenType::RBrace {
        expression_ignores_layout(ts, pos, m);
        let first = expression(ts, pos, m);
        if first.carries_on(ts, pos) && !at_end(ts, first.pos) {
            if kind_at(ts, first.pos) == TokenType::Colon {
                object_literal_ignores_layout(ts, first.pos + 1, first.macros, first.value());
            } else {
                block_ignores_layout(ts, first.pos, first.macros, first.value());
            }
        }
    }
}

#[verifier::rlimit(80)]
proof fn object_literal_ignores_layout(ts: Seq<TokenView>, pos: nat, m: MacroMap, key: ExprView)
    requires
        ready(ts, pos, m),
    ensures
        kept_tree(ts, pos, object_literal(ts, pos, m, key)),
        object_literal(all_unplaced(ts), pos, macro_shapes(m), shape(key)) == shaped(
            object_literal(ts, pos, m, key),
        ),
    decreases ts.len() - pos, 52nat,
{
    object_literal_keeps(ts, pos, m, key);
    match key {
        ExprView::Variable { name } => {
            expression_ignores_layout(ts, pos, m);
            let value = expression(ts, pos, m);
            if value.carries_on(ts, pos) {
                let first = Entries { keys: seq![name], values: seq![value.value()] };
                assert(all_unplaced(seq![name]) =~= seq![unplaced(name)]);
                assert(shapes(seq![value.value()]) =~= seq![shape(value.value())]);
                assert(entries_shape(first) == (Entries {
                    keys: seq![unplaced(name)],
                    values: seq![shape(value.value())],
                }));
                if kind_at(ts, value.pos) == TokenType::Comma {
                    object_entries_ignores_layout(ts, value.pos + 1, value.macros, first);
                }
            }
        },
        _ => {},
    }
}

#[verifier::rlimit(80)]
proof fn object_entries_ignores_layout(ts: Seq<TokenView>, pos: nat, m: MacroMap, acc: Entries)
    requires
        ready(ts, pos, m),
    ensures
        kept(ts, pos, object_entries(ts, pos, m, acc)),
        object_entries(all_unplaced(ts), pos, macro_shapes(m), entries_shape(acc))
            == shaped_entries(object_entries(ts, pos, m, acc)),
    decreases ts.len() - pos, 50nat,
{
    object_entries_keeps(ts, pos, m, acc);
    if !(kind_at(ts, pos) == TokenType::RBrace || at_end(ts, pos)) && kind_at(ts, pos)
        == TokenType::Id && kind_at(ts, pos + 1) == TokenType::Colon {
        expression_ignores_layout(ts, pos + 2, m);
        let value = expression(ts, pos + 2, m);
        if value.carries_on(ts, pos + 2) {
            let grown = Entries {
                keys: acc.keys.push(token_at(ts, pos)),
                values: acc.values.push(value.value()),
            };
            lemma_unplaced_push(acc.keys, token_at(ts, pos));
            lemma_shapes_push(acc.values, value.value());
            if kind_at(ts, value.pos) == TokenType::Comma {
                object_entries_ignores_layout(ts, value.pos + 1, value.macros, grown);
            }
        }
    }
}

#[verifier::rlimit(80)]
proof fn block_ignores_layout(ts: Seq<TokenView>, pos: nat, m: MacroMap, first: ExprView)
    requires
        ready(ts, pos, m),
    ensures
        kept(ts, pos, block(ts, pos, m, first)),
        block(ts, pos, m, first).out matches Ok(e) ==> !(e is End) && pos < block(
            ts,
            pos,
            m,
            first,
        ).pos,
        block(all_unplaced(ts), pos, macro_shapes(m), shape(first)) == shaped(
            block(ts, pos, m, first),
        ),
    decreases ts.len() - pos, 51nat,
{
    block_keeps(ts, pos, m, first);
    assert(shapes(seq![first]) =~= seq![shape(first)]);
    block_items_ignores_layout(ts, pos, m, seq![first]);
}

#[verifier::rlimit(80)]
proof fn block_items_ignores_layout(ts: Seq<TokenView>, pos: nat, m: MacroMap, acc: Seq<ExprView>)
    requires
        ready(ts, pos, m),
    ensures
        kept(ts, pos, block_items(ts, pos, m, acc)),
        block_items(all_unplaced(ts), pos, macro_shapes(m), shapes(acc)) == shaped_exprs(
            block_items(ts, pos, m, acc),
        ),
    decreases ts.len() - pos, 50nat,
{
    block_items_keeps(ts, pos, m, acc);
    if !(kind_at(ts, pos) == TokenType::RBrace || at_end(ts, pos)) {
        expression_ignores_layout(ts, pos, m);
        let item = expression(ts, pos, m);
        if item.moves_on(ts, pos) {
            lemma_shapes_push(acc, item.value());
            block_items_ignores_layout(ts, item.pos, item.macros, acc.push(item.value()));
        }
    }
}

#[verifier::rlimit(80)]
proof fn lambda_ignores_layout(ts: Seq<TokenView>, pos: nat, m: MacroMap)
    requires
        ready(ts, pos, m),
    ensures
        kept_tree(ts, pos, lambda(ts, pos, m)),
        lambda(all_unplaced(ts), pos, macro_shapes(m)) == shaped(lambda(ts, pos, m)),
    decreases ts.len() - pos, 51nat,
{
    lambda_keeps(ts, pos, m);
    assert(all_unplaced(Seq::<TokenView>::empty()) =~= Seq::<TokenView>::empty());
    expression_ignores_layout(ts, pos, m);
}

#[verifier::rlimit(80)]
proof fn function_ignores_layout(
    ts: Seq<TokenView>,
    pos: nat,
    m: MacroMap,
    public: bool,
    decorators: Seq<DecoratorView>,
)
    requires
        ready(ts, pos, m),
    ensures
        kept_tree(ts, pos, function(ts, pos, m, public, decorators)),
        function(all_unplaced(ts), pos, macro_shapes(m), public, decorator_shapes(decorators))
            == shaped(function(ts, pos, m, public, decorators)),
    decreases ts.len() - pos, 11nat,
{
    function_keeps(ts, pos, m, public, decorators);
    let marked = !public && kind_at(ts, pos) == TokenType::Public;
    let start = if marked {
        pos + 1
    } else {
        pos
    };
    if kind_at(ts, start) == TokenType::Func {
        let named = kind_at(ts, start + 1) == TokenType::Id;
        let name = if named {
            Some(token_at(ts, start + 1))
        } else {
            None
        };
        let open = if named {
            start + 2
        } else {
            start + 1
        };
        parameters_ignores_layout(ts, open, m);
        let sig = parameters(ts, open, m);
        if sig.carries_on(ts, open) {
            expression_ignores_layout(ts, sig.pos, sig.macros);
            let body = expression(ts, sig.pos, sig.macros);
            if body.out is Ok {
                lemma_function_node_shape(
                    public || marked,
                    name,
                    sig.value(),
                    body.value(),
                    decorators,
                    previous_at(ts, body.pos),
                    body.pos,
                    body.macros,
                );
            }
        }
    }
}

#[verifier::rlimit(80)]
proof fn decorated_ignores_layout(ts: Seq<TokenView>, pos: nat, m: MacroMap)
    requires
        ready(ts, pos, m),
    ensures
        kept_tree(ts, pos, decorated(ts, pos, m)),
        decorated(all_unplaced(ts), pos, macro_shapes(m)) == shaped(decorated(ts, pos, m)),
    decreases ts.len() - pos, 55nat,
{
    decorated_keeps(ts, pos, m);
    let none = Seq::<DecoratorView>::empty();
    assert(decorator_shapes(none) =~= none);
    if kind_at(ts, pos) == TokenType::LBracket {
        decorators_ignores_layout(ts, pos + 1, m, none);
        let list = decorators(ts, pos + 1, m, none);
        if list.carries_on(ts, pos + 1) && kind_at(ts, list.pos) == TokenType::RBracket {
            function_ignores_layout(ts, list.pos + 1, list.macros, false, list.value());
        }
    }
}

#[verifier::rlimit(80)]
proof fn decorators_ignores_layout(
    ts: Seq<TokenView>,
    pos: nat,
    m: MacroMap,
    acc: Seq<DecoratorView>,
)
    requires
        ready(ts, pos, m),
    ensures
        kept(ts, pos, decorators(ts, pos, m, acc)),
        decorators(all_unplaced(ts), pos, macro_shapes(m), decorator_shapes(acc))
            == shaped_decorators(decorators(ts, pos, m, acc)),
    decreases ts.len() - pos, 54nat,
{
    decorators_keeps(ts, pos, m, acc);
    if kind_at(ts, pos) != TokenType::RBracket && kind_at(ts, pos) == TokenType::Id {
        let name = token_at(ts, pos);
        let next = pos + 1;
        let none = Seq::<CallArgView>::empty();
        assert(arg_shapes(none) =~= none);
        if kind_at(ts, next) == TokenType::LParen {
            arguments_ignores_layout(ts, next + 1, m, none);
            let args = arguments(ts, next + 1, m, none);
            if args.carries_on(ts, next + 1) && kind_at(ts, args.pos) == TokenType::RParen {
                let one = DecoratorView { name, args: args.value() };
                assert(decorator_shapes(acc.push(one)) =~= decorator_shapes(acc).push(
                    DecoratorView { name: unplaced(name), args: arg_shapes(args.value()) },
                ));
                if kind_at(ts, args.pos + 1) == TokenType::Comma {
                    decorators_ignores_layout(ts, args.pos + 2, args.macros, acc.push(one));
                }
            }
        } else {
            let one = DecoratorView { name, args: none };
            assert(decorator_shapes(acc.push(one)) =~= decorator_shapes(acc).push(
                DecoratorView { name: unplaced(name), args: none },
            ));
            if kind_at(ts, next) == TokenType::Comma {
                decorators_ignores_layout(ts, next + 1, m, acc.push(one));
            }
        }
    }
}

#[verifier::rlimit(80)]
proof fn match_expression_ignores_layout(
    ts: Seq<TokenView>,
    pos: nat,
    m: MacroMap,
    mark: TokenView,
)
    requires
        ready(ts, pos, m),
    ensures
        kept_tree(ts, pos, match_expression(ts, pos, m, mark)),
        match_expression(all_unplaced(ts), pos, macro_shapes(m), unplaced(mark)) == shaped(
            match_expression(ts, pos, m, mark),
        ),
    decreases ts.len() - pos, 51nat,
{
    match_expression_keeps(ts, pos, m, mark);
    let none = Seq::<MatchBranchView>::empty();
    assert(branch_shapes(none) =~= none);
    expression_ignores_layout(ts, pos, m);
    let cond = expression(ts, pos, m);
    if cond.carries_on(ts, pos) && kind_at(ts, cond.pos) == TokenType::LBrace {
        match_branches_ignores_layout(ts, cond.pos + 1, cond.macros, none);
    }
}

#[verifier::rlimit(80)]
proof fn match_branches_ignores_layout(
    ts: Seq<TokenView>,
    pos: nat,
    m: MacroMap,
    acc: Seq<MatchBranchView>,
)
    requires
        ready(ts, pos, m),
    ensures
        kept(ts, pos, match_branches(ts, pos, m, acc)),
        match_branches(all_unplaced(ts), pos, macro_shapes(m), branch_shapes(acc))
            == shaped_branches(match_branches(ts, pos, m, acc)),
    decreases ts.len() - pos, 50nat,
{
    match_branches_keeps(ts, pos, m, acc);
    if kind_at(ts, pos) != TokenType::RBrace {
        expression_ignores_layout(ts, pos, m);
        let target = expression(ts, pos, m);
        if target.carries_on(ts, pos) && kind_at(ts, target.pos) == TokenType::MinusGT {
            expression_ignores_layout(ts, target.pos + 1, target.macros);
            let body = expression(ts, target.pos + 1, target.macros);
            if body.carries_on(ts, target.pos + 1) {
                let one = MatchBranchView { target: target.value(), body: body.value() };
                assert(branch_shapes(acc.push(one)) =~= branch_shapes(acc).push(branch_shape(one)));
                if kind_at(ts, body.pos) == TokenType::Comma {
                    match_branches_ignores_layout(ts, body.pos + 1, body.macros, acc.push(one));
                }
            }
        }
    }
}

#[verifier::rlimit(80)]
proof fn try_expression_ignores_layout(ts: Seq<TokenView>, pos: nat, m: MacroMap, mark: TokenView)
    requires
        ready(ts, pos, m),
    ensures
        kept_tree(ts, pos, try_expression(ts, pos, m, mark)),
        try_expression(all_unplaced(ts), pos, macro_shapes(m), unplaced(mark)) == shaped(
            try_expression(ts, pos, m, mark),
        ),
    decreases ts.len() - pos, 51nat,
{
    try_expression_keeps(ts, pos, m, mark);
    expression_ignores_layout(ts, pos, m);
    let result = expression(ts, pos, m);
    if result.carries_on(ts, pos) {
        expression_ignores_layout(ts, result.pos, result.macros);
        let handler = expression(ts, result.pos, result.macros);
        if handler.carries_on(ts, result.pos) {
            if kind_at(ts, handler.pos) == TokenType::Else {
                expression_ignores_layout(ts, handler.pos + 1, handler.macros);
            }
            let success = if kind_at(ts, handler.pos) == TokenType::Else {
                expression(ts, handler.pos + 1, handler.macros)
            } else {
                Step::ok(ExprView::Null { token: mark }, handler.pos, handler.macros)
            };
            if success.out is Ok {
                lemma_try_node_shape(mark, result.value(), handler.value(), success.value());
            }
        }
    }
}

#[verifier::rlimit(80)]
proof fn wrapped_ignores_layout(ts: Seq<TokenView>, pos: nat, m: MacroMap, mark: TokenView)
    requires
        ready(ts, pos, m),
    ensures
        kept_tree(ts, pos, unsafe_expression(ts, pos, m, mark)),
        kept_tree(ts, pos, shell_expression(ts, pos, m, mark)),
        unsafe_expression(all_unplaced(ts), pos, macro_shapes(m), unplaced(mark)) == shaped(
            unsafe_expression(ts, pos, m, mark),
        ),
        shell_expression(all_unplaced(ts), pos, macro_shapes(m), unplaced(mark)) == shaped(
            shell_expression(ts, pos, m, mark),
        ),
    decreases ts.len() - pos, 51nat,
{
    wrapped_keeps(ts, pos, m, mark);
    expression_ignores_layout(ts, pos, m);
}

#[verifier::rlimit(80)]
proof fn define_macro_ignores_layout(ts: Seq<TokenView>, pos: nat, m: MacroMap)
    requires
        ready(ts, pos, m),
    ensures
        kept_tree(ts, pos, define_macro(ts, pos, m)),
        define_macro(all_unplaced(ts), pos, macro_shapes(m)) == shaped(define_macro(ts, pos, m)),
    decreases ts.len() - pos, 51nat,
{
    define_macro_keeps(ts, pos, m);
    if kind_at(ts, pos) == TokenType::Id {
        expression_ignores_layout(ts, pos + 1, m);
        let body = expression(ts, pos + 1, m);
        if body.out is Ok {
            lemma_macro_shapes_insert(body.macros, token_at(ts, pos).lexeme, body.value());
        }
    }
}

#[verifier::rlimit(80)]
proof fn redefine_macro_ignores_layout(ts: Seq<TokenView>, pos: nat, m: MacroMap)
    requires
        ready(ts, pos, m),
    ensures
        kept_tree(ts, pos, redefine_macro(ts, pos, m)),
        redefine_macro(all_unplaced(ts), pos, macro_shapes(m)) == shaped(
            redefine_macro(ts, pos, m),
        ),
    decreases ts.len() - pos, 51nat,
{
    redefine_macro_keeps(ts, pos, m);
    if kind_at(ts, pos) == TokenType::Id {
        expression_ignores_layout(ts, pos + 1, m);
        let body = expression(ts, pos + 1, m);
        if body.out is Ok {
            lemma_macro_shapes_insert(body.macros, token_at(ts, pos).lexeme, body.value());
        }
    }
}

/// One turn of the top-level loop ignores the layout of the source.
#[verifier::rlimit(80)]
pub proof fn top_level_ignores_layout(ts: Seq<TokenView>, pos: nat, m: MacroMap)
    requires
        ready(ts, pos, m),
    ensures
        top_level(all_unplaced(ts), pos, macro_shapes(m)).node == optional_shape(
            top_level(ts, pos, m).node,
        ),
        top_level(all_unplaced(ts), pos, macro_shapes(m)).error == match top_level(
            ts,
            pos,
            m,
        ).error {
            Some(e) => Some(unplaced_error(e)),
            None => None,
        },
        top_level(all_unplaced(ts), pos, macro_shapes(m)).pos == top_level(ts, pos, m).pos,
        top_level(all_unplaced(ts), pos, macro_shapes(m)).macros == macro_shapes(
            top_level(ts, pos, m).macros,
        ),
{
    expression_ignores_layout(ts, pos, m);
    let step = expression(ts, pos, m);
    if step.out is Err && !at_end(ts, step.pos) {
        skip_ignores_layout(ts, step.pos + 1);
    }
}

/// The top-level loop ignores the layout of the source.
#[verifier::rlimit(80)]
pub proof fn program_ignores_layout(
    ts: Seq<TokenView>,
    pos: nat,
    m: MacroMap,
    nodes: Seq<ExprView>,
    errors: Seq<ErrorView>,
)
    requires
        ready(ts, pos, m),
    ensures
        program(
            all_unplaced(ts),
            pos,
            macro_shapes(m),
            shapes(nodes),
            unplaced_errors(errors),
        ) == outcome_shape(program(ts, pos, m, nodes, errors)),
    decreases ts.len() - pos,
{
    if !at_end(ts, pos) {
        top_level_keeps(ts, pos, m);
        top_level_ignores_layout(ts, pos, m);
        let turn = top_level(ts, pos, m);
        match turn.node {
            Some(e) => {
                lemma_shapes_push(nodes, e);
            },
            None => {},
        }
        match turn.error {
            Some(e) => {
                assert(unplaced_errors(errors.push(e)) =~= unplaced_errors(errors).push(
                    unplaced_error(e),
                ));
            },
            None => {},
        }
        program_ignores_layout(
            ts,
            turn.pos,
            turn.macros,
            with_optional(nodes, turn.node),
            with_optional(errors, turn.error),
        );
    }
}

/// Two sources that differ in their layout alone print alike: where two
/// streams agree token by token in kind and in lexeme, the trees that they
/// parse to have the same texts, and they fail alike.
pub proof fn layout_leaves_no_trace(a: Seq<TokenView>, b: Seq<TokenView>)
    requires
        well_formed(a),
        all_unplaced(a) == all_unplaced(b),
    ensures
        renders(parsed(a).nodes) == renders(parsed(b).nodes),
        unplaced_errors(parsed(a).errors) == unplaced_errors(parsed(b).errors),
{
    let none = Map::<Seq<char>, ExprView>::empty();
    assert(macro_shapes(none) =~= none);
    assert(shapes(Seq::<ExprView>::empty()) =~= Seq::<ExprView>::empty());
    assert(unplaced_errors(Seq::<ErrorView>::empty()) =~= Seq::<ErrorView>::empty());
    assert(all_unplaced(a).len() == a.len() && all_unplaced(b).len() == b.len());
    assert(all_unplaced(a).last() == unplaced(a.last()));
    assert(all_unplaced(b).last() == unplaced(b.last()));
    assert(well_formed(b));
    program_ignores_layout(a, 0, none, Seq::empty(), Seq::empty());
    program_ignores_layout(b, 0, none, Seq::empty(), Seq::empty());
    assert(shapes(parsed(a).nodes) == shapes(parsed(b).nodes));
    lemma_renders_shapes(parsed(a).nodes);
    lemma_renders_shapes(parsed(b).nodes);
}

} // verus!
