//! The rest parameter stands apart. In a stream in which no token stands
//! twice, whatever the parser recognises holds no function whose rest
//! parameter is also one of its plain parameters.

use vstd::prelude::*;
use crate::ast::{CallArgView, ExprView, MatchBranchView};
use crate::error::ErrorView;
use crate::grammar::{
    arguments, assignment, at_end, binary, binary_tail, bind, block, block_items, braces, call,
    callback_pipe, combine, compound, decorate, decorated, decorators, define_macro, expression,
    finish_call, function, function_node, group, increment, is_binding, is_compound, is_operator,
    kind_at, lambda, level_rank, list_items, list_literal, match_branches, match_expression,
    member_token,
    more_arguments, object_entries, object_literal, operand, parameter_items, parameters, parsed,
    plain_operator, postfix, previous_at, primary, program, redefine_macro, shell_expression,
    ternary, ternary_node, token_at, top_level, trailing_pipe, try_expression, try_node, unary,
    unsafe_expression, well_formed, with_optional, DecoratorView, Entries, Level, MacroMap,
    Signature, Step,
};
use crate::soundness::{
    arguments_keeps, assignment_keeps, binary_keeps, binary_tail_keeps, block_items_keeps,
    block_keeps, braces_keeps, call_keeps, callback_pipe_keeps, decorated_keeps, decorators_keeps,
    define_macro_keeps, expression_keeps, finish_call_keeps, function_keeps, group_keeps, kept,
    kept_node, kept_tree, lambda_keeps, list_items_keeps, list_literal_keeps,
    match_branches_keeps, match_expression_keeps, more_arguments_keeps, object_entries_keeps,
    object_literal_keeps, operand_keeps, parameter_items_keeps, parameters_keeps, postfix_keeps,
    primary_keeps, ready, redefine_macro_keeps, ternary_keeps, top_level_keeps,
    trailing_pipe_keeps, try_expression_keeps, unary_keeps, wrapped_keeps,
};
use crate::laws::{distinct_tokens, rest_is_no_parameter};
use crate::token::{TokenType, TokenView};

verus! {

/// Whether `rest`, where there is one, is none of `params`.
#[verifier::opaque]
pub open spec fn outside(params: Seq<TokenView>, rest: Option<TokenView>) -> bool {
    rest is Some ==> !params.contains(rest->Some_0)
}

/// Whether the rest parameters of a tree stand apart: throughout it, the
/// rest parameter of a function is none of its plain parameters.
pub open spec fn apart(e: ExprView) -> bool
    decreases e,
{
    match e {
        ExprView::Binary { left, right, op } => apart(*left) && apart(*right),
        ExprView::Group { expr } => apart(*expr),
        ExprView::Unary { right, op } => apart(*right),
        ExprView::ListLiteral { token, values } => apart_all(values),
        ExprView::ObjectLiteral { token, keys, values } => apart_all(values),
        ExprView::Logical { left, right, op } => apart(*left) && apart(*right),
        ExprView::Assign { init, public, mutable, token, left, right } => apart(*left) && apart(
            *right,
        ),
        ExprView::Call { callee, args, token } => apart(*callee) && apart_args(args),
        ExprView::Get { instance, value, token } => apart(*instance) && apart(*value),
        ExprView::SetMember { instance, member, token, value } => apart(*instance) && apart(
            *member,
        ) && apart(*value),
        ExprView::Func { public, name, params, rest, body } => outside(params, rest) && apart(
            *body,
        ),
        ExprView::Match { token, condition, branches } => apart(*condition) && apart_branches(
            branches,
        ),
        ExprView::Block { token, exprs } => apart_all(exprs),
        ExprView::Unsafe { token, expr } => apart(*expr),
        ExprView::Shell { token, expr } => apart(*expr),
        _ => true,
    }
}

/// Whether the rest parameters of every tree of a run stand apart.
pub open spec fn apart_all(items: Seq<ExprView>) -> bool
    decreases items,
{
    forall|i: int| 0 <= i < items.len() ==> apart(#[trigger] items[i])
}

/// Whether the rest parameters in a call argument stand apart.
pub open spec fn apart_arg(arg: CallArgView) -> bool
    decreases arg,
{
    match arg {
        CallArgView::Positional(e) => apart(e),
        CallArgView::Unpacking(e) => apart(e),
    }
}

/// Whether the rest parameters in a run of call arguments stand apart.
pub open spec fn apart_args(args: Seq<CallArgView>) -> bool
    decreases args,
{
    forall|i: int| 0 <= i < args.len() ==> apart_arg(#[trigger] args[i])
}

/// Whether the rest parameters in both trees of a match branch stand apart.
pub open spec fn apart_branch(branch: MatchBranchView) -> bool
    decreases branch,
{
    apart(branch.target) && apart(branch.body)
}

/// Whether the rest parameters in a run of match branches stand apart.
pub open spec fn apart_branches(branches: Seq<MatchBranchView>) -> bool
    decreases branches,
{
    forall|i: int| 0 <= i < branches.len() ==> apart_branch(#[trigger] branches[i])
}

/// Whether the values of object entries stand apart.
pub open spec fn apart_entries(entries: Entries) -> bool {
    apart_all(entries.values)
}

/// Whether the arguments of decorators stand apart.
pub open spec fn apart_decorators(decorators: Seq<DecoratorView>) -> bool {
    forall|i: int| 0 <= i < decorators.len() ==> apart_args((#[trigger] decorators[i]).args)
}

/// Whether the parameters of a signature stand apart.
pub open spec fn apart_signature(sig: Signature) -> bool {
    outside(sig.params, sig.rest)
}

/// Whether the trees of all macros stand apart.
pub open spec fn apart_macros(m: MacroMap) -> bool {
    forall|name: Seq<char>| m.dom().contains(name) ==> apart(#[trigger] m[name])
}

/// Whether the rest parameters of an optional tree stand apart.
pub open spec fn apart_optional(e: Option<ExprView>) -> bool {
    e matches Some(tree) ==> apart(tree)
}

/// A step after which the rest parameters of all macros stand apart.
pub open spec fn apart_macros_step<T>(s: Step<T>) -> bool {
    apart_macros(s.macros)
}

/// A step after which the rest parameters of all macros stand apart, and
/// those of the tree it recognised, if it recognised one.
pub open spec fn apart_tree(s: Step<ExprView>) -> bool {
    apart_macros(s.macros) && (s.out matches Ok(e) ==> apart(e))
}

/// [`apart_tree`], for a step that yields a run of trees.
pub open spec fn apart_exprs_step(s: Step<Seq<ExprView>>) -> bool {
    apart_macros(s.macros) && (s.out matches Ok(es) ==> apart_all(es))
}

/// [`apart_tree`], for a step that yields call arguments.
pub open spec fn apart_args_step(s: Step<Seq<CallArgView>>) -> bool {
    apart_macros(s.macros) && (s.out matches Ok(args) ==> apart_args(args))
}

/// [`apart_tree`], for a step that yields object entries.
pub open spec fn apart_entries_step(s: Step<Entries>) -> bool {
    apart_macros(s.macros) && (s.out matches Ok(entries) ==> apart_entries(entries))
}

/// [`apart_tree`], for a step that yields match branches.
pub open spec fn apart_branches_step(s: Step<Seq<MatchBranchView>>) -> bool {
    apart_macros(s.macros) && (s.out matches Ok(branches) ==> apart_branches(branches))
}

/// [`apart_tree`], for a step that yields decorators.
pub open spec fn apart_decorators_step(s: Step<Seq<DecoratorView>>) -> bool {
    apart_macros(s.macros) && (s.out matches Ok(decorators) ==> apart_decorators(decorators))
}

proof fn lemma_apart_all_push(items: Seq<ExprView>, e: ExprView)
    requires
        apart_all(items),
        apart(e),
    ensures
        apart_all(items.push(e)),
{
    assert forall|i: int| 0 <= i < items.push(e).len() implies apart(
        #[trigger] items.push(e)[i],
    ) by {
        if i < items.len() {
            assert(items.push(e)[i] == items[i]);
        }
    }
}

proof fn lemma_apart_args_push(args: Seq<CallArgView>, a: CallArgView)
    requires
        apart_args(args),
        apart_arg(a),
    ensures
        apart_args(args.push(a)),
{
    assert forall|i: int| 0 <= i < args.push(a).len() implies apart_arg(
        #[trigger] args.push(a)[i],
    ) by {
        if i < args.len() {
            assert(args.push(a)[i] == args[i]);
        }
    }
}

proof fn lemma_bind_apart(left: ExprView, right: ExprView, kind: TokenType, pos: nat, m: MacroMap)
    requires
        apart(left),
        apart(right),
    ensures
        bind(left, right, kind, pos, m).out matches Ok(e) ==> apart(e),
{
    match left {
        ExprView::Get { instance, value, token } => {
            let made = ExprView::SetMember {
                instance,
                member: value,
                token: member_token(*value, token),
                value: Box::new(right),
            };
            assert(apart(made));
        },
        _ => {},
    }
}

proof fn lemma_compound_apart(left: ExprView, right: ExprView, op: TokenView, pos: nat, m: MacroMap)
    requires
        apart(left),
        apart(right),
    ensures
        compound(left, right, op, pos, m).out matches Ok(e) ==> apart(e),
{
    let sum = ExprView::Binary {
        left: Box::new(left),
        right: Box::new(right),
        op: op.with_kind(plain_operator(op.kind)),
    };
    assert(apart(sum));
}

proof fn lemma_increment_apart(left: ExprView, op: TokenView, pos: nat, m: MacroMap)
    requires
        apart(left),
    ensures
        increment(left, op, pos, m).out matches Ok(e) ==> apart(e),
{
    let sign = op.with_kind(
        if op.kind == TokenType::DPlus {
            TokenType::Plus
        } else {
            TokenType::Minus
        },
    );
    let one = ExprView::IntegerLiteral { token: sign, value: 1 };
    assert(apart(one));
    let sum = ExprView::Binary { left: Box::new(left), right: Box::new(one), op: sign };
    assert(apart(sum));
}

proof fn lemma_decorate_apart(decorators: Seq<DecoratorView>, inner: ExprView, mark: TokenView)
    requires
        apart_decorators(decorators),
        apart(inner),
    ensures
        apart(decorate(decorators, inner, mark)),
    decreases decorators.len(),
{
    if decorators.len() > 0 {
        let last = decorators.last();
        assert(last == decorators[decorators.len() - 1]);
        assert forall|i: int| 0 <= i < decorators.drop_last().len() implies apart_args(
            (#[trigger] decorators.drop_last()[i]).args,
        ) by {
            assert(decorators.drop_last()[i] == decorators[i]);
        }
        lemma_decorate_apart(decorators.drop_last(), inner, mark);
        let wrapped = decorate(decorators.drop_last(), inner, mark);
        let first = CallArgView::Positional(wrapped);
        let all = seq![first] + last.args;
        assert forall|i: int| 0 <= i < all.len() implies apart_arg(#[trigger] all[i]) by {
            if i > 0 {
                assert(all[i] == last.args[i - 1]);
            }
        }
        assert(apart_args(all));
        let callee = ExprView::Variable { name: last.name };
        assert(apart(callee));
        let made = ExprView::Call { callee: Box::new(callee), args: all, token: mark };
        assert(apart(made));
    }
}

proof fn lemma_function_node_apart(
    public: bool,
    name: Option<TokenView>,
    sig: Signature,
    body: ExprView,
    decorators: Seq<DecoratorView>,
    mark: TokenView,
    pos: nat,
    m: MacroMap,
)
    requires
        apart(body),
        apart_decorators(decorators),
        apart_signature(sig),
    ensures
        function_node(public, name, sig, body, decorators, mark, pos, m).out matches Ok(e)
            ==> apart(e),
{
    let bare = ExprView::Func {
        public: false,
        name: None,
        params: sig.params,
        rest: sig.rest,
        body: Box::new(body),
    };
    assert(apart(bare));
    let plain = ExprView::Func { public, name, params: sig.params, rest: sig.rest, body: Box::new(body) };
    assert(apart(plain));
    if decorators.len() > 0 {
        lemma_decorate_apart(decorators, bare, mark);
        match name {
            Some(n) => {
                let target = ExprView::Variable { name: n };
                assert(apart(target));
                let made = ExprView::Assign {
                    init: true,
                    public,
                    mutable: false,
                    token: n,
                    left: Box::new(target),
                    right: Box::new(decorate(decorators, bare, mark)),
                };
                assert(apart(made));
            },
            None => {},
        }
    }
}

proof fn lemma_two_branches_apart(first: MatchBranchView, second: MatchBranchView)
    requires
        apart_branch(first),
        apart_branch(second),
    ensures
        apart_branches(seq![first, second]),
{
    let both = seq![first, second];
    assert forall|i: int| 0 <= i < both.len() implies apart_branch(#[trigger] both[i]) by {
        if i == 0 {
            assert(both[i] == first);
        } else {
            assert(both[i] == second);
        }
    }
}

proof fn lemma_ternary_node_apart(mark: TokenView, cond: ExprView, yes: ExprView, no: ExprView)
    requires
        apart(cond),
        apart(yes),
        apart(no),
    ensures
        apart(ternary_node(mark, cond, yes, no)),
{
    let truth = ExprView::BoolLiteral { token: mark, payload: true };
    let other = ExprView::Underscore { token: mark };
    assert(apart(truth));
    assert(apart(other));
    let first = MatchBranchView { target: truth, body: yes };
    let second = MatchBranchView { target: other, body: no };
    assert(apart_branch(first));
    assert(apart_branch(second));
    lemma_two_branches_apart(first, second);
    let made = ExprView::Match {
        token: mark,
        condition: Box::new(cond),
        branches: seq![first, second],
    };
    assert(apart(made));
}

proof fn lemma_try_node_apart(mark: TokenView, result: ExprView, handler: ExprView, success: ExprView)
    requires
        apart(result),
        apart(handler),
        apart(success),
    ensures
        apart(try_node(mark, result, handler, success)),
{
    let probe = TokenView { kind: TokenType::Id, lexeme: "error?"@, line: mark.line, col: mark.col };
    let callee = ExprView::Variable { name: probe };
    assert(apart(callee));
    let arg = CallArgView::Positional(result);
    assert(apart_arg(arg));
    lemma_apart_args_push(Seq::empty(), arg);
    assert(seq![arg] =~= Seq::<CallArgView>::empty().push(arg));
    let condition = ExprView::Call { callee: Box::new(callee), args: seq![arg], token: mark };
    assert(apart(condition));
    let truth = ExprView::BoolLiteral { token: mark, payload: true };
    let falsity = ExprView::BoolLiteral { token: mark, payload: false };
    assert(apart(truth));
    assert(apart(falsity));
    let first = MatchBranchView { target: truth, body: handler };
    let second = MatchBranchView { target: falsity, body: success };
    assert(apart_branch(first));
    assert(apart_branch(second));
    lemma_two_branches_apart(first, second);
    let made = ExprView::Match {
        token: mark,
        condition: Box::new(condition),
        branches: seq![first, second],
    };
    assert(apart(made));
}

/// An expression yields a tree whose rest parameters stand apart.
#[verifier::rlimit(80)]
pub proof fn expression_is_apart(ts: Seq<TokenView>, pos: nat, m: MacroMap)
    requires
        ready(ts, pos, m),
        distinct_tokens(ts),
        apart_macros(m),
    ensures
        kept_tree(ts, pos, expression(ts, pos, m)),
        apart_tree(expression(ts, pos, m)),
    decreases ts.len() - pos, 40nat,
{
    expression_keeps(ts, pos, m);
    assignment_is_apart(ts, pos, m);
}

#[verifier::rlimit(80)]
pub proof fn assignment_is_apart(ts: Seq<TokenView>, pos: nat, m: MacroMap)
    requires
        ready(ts, pos, m),
        distinct_tokens(ts),
        apart_macros(m),
    ensures
        kept_tree(ts, pos, assignment(ts, pos, m)),
        apart_tree(assignment(ts, pos, m)),
    decreases ts.len() - pos, 39nat,
{
    assignment_keeps(ts, pos, m);
    binary_is_apart(ts, pos, m, Level::Or);
    let target = binary(ts, pos, m, Level::Or);
    if target.carries_on(ts, pos) {
        let kind = kind_at(ts, target.pos);
        if is_binding(kind) {
            assignment_is_apart(ts, target.pos + 1, target.macros);
            let value = assignment(ts, target.pos + 1, target.macros);
            if value.out is Ok {
                lemma_bind_apart(target.value(), value.value(), kind, value.pos, value.macros);
            }
        } else if is_compound(kind) {
            assignment_is_apart(ts, target.pos + 1, target.macros);
            let value = assignment(ts, target.pos + 1, target.macros);
            if value.out is Ok {
                lemma_compound_apart(
                    target.value(),
                    value.value(),
                    token_at(ts, target.pos),
                    value.pos,
                    value.macros,
                );
            }
        } else if kind == TokenType::DPlus || kind == TokenType::DMinus {
            lemma_increment_apart(
                target.value(),
                token_at(ts, target.pos),
                target.pos + 1,
                target.macros,
            );
        }
    }
}

#[verifier::rlimit(80)]
pub proof fn operand_is_apart(ts: Seq<TokenView>, pos: nat, m: MacroMap, level: Level)
    requires
        ready(ts, pos, m),
        distinct_tokens(ts),
        apart_macros(m),
    ensures
        kept_tree(ts, pos, operand(ts, pos, m, level)),
        apart_tree(operand(ts, pos, m, level)),
    decreases ts.len() - pos, 21 + 2 * level_rank(level),
{
    operand_keeps(ts, pos, m, level);
    match level {
        Level::Factor => unary_is_apart(ts, pos, m),
        Level::Term => binary_is_apart(ts, pos, m, Level::Factor),
        Level::Comparison => binary_is_apart(ts, pos, m, Level::Term),
        Level::Equality => binary_is_apart(ts, pos, m, Level::Comparison),
        Level::And => binary_is_apart(ts, pos, m, Level::Equality),
        Level::Or => binary_is_apart(ts, pos, m, Level::And),
    }
}

#[verifier::rlimit(80)]
pub proof fn binary_is_apart(ts: Seq<TokenView>, pos: nat, m: MacroMap, level: Level)
    requires
        ready(ts, pos, m),
        distinct_tokens(ts),
        apart_macros(m),
    ensures
        kept_tree(ts, pos, binary(ts, pos, m, level)),
        apart_tree(binary(ts, pos, m, level)),
    decreases ts.len() - pos, 22 + 2 * level_rank(level),
{
    binary_keeps(ts, pos, m, level);
    operand_is_apart(ts, pos, m, level);
    let first = operand(ts, pos, m, level);
    if first.carries_on(ts, pos) {
        binary_tail_is_apart(ts, first.pos, first.macros, level, first.value());
    }
}

#[verifier::rlimit(80)]
pub proof fn binary_tail_is_apart(ts: Seq<TokenView>, pos: nat, m: MacroMap, level: Level, left: ExprView)
    requires
        ready(ts, pos, m),
        distinct_tokens(ts),
        !(left is End),
        apart_macros(m),
        apart(left),
    ensures
        kept_node(ts, pos, binary_tail(ts, pos, m, level, left)),
        apart_tree(binary_tail(ts, pos, m, level, left)),
    decreases ts.len() - pos, 20nat,
{
    binary_tail_keeps(ts, pos, m, level, left);
    if is_operator(level, kind_at(ts, pos)) {
        operand_is_apart(ts, pos + 1, m, level);
        let right = operand(ts, pos + 1, m, level);
        if right.carries_on(ts, pos + 1) {
            binary_tail_is_apart(
                ts,
                right.pos,
                right.macros,
                level,
                combine(level, left, right.value(), token_at(ts, pos)),
            );
        }
    }
}

#[verifier::rlimit(80)]
pub proof fn unary_is_apart(ts: Seq<TokenView>, pos: nat, m: MacroMap)
    requires
        ready(ts, pos, m),
        distinct_tokens(ts),
        apart_macros(m),
    ensures
        kept_tree(ts, pos, unary(ts, pos, m)),
        apart_tree(unary(ts, pos, m)),
    decreases ts.len() - pos, 15nat,
{
    unary_keeps(ts, pos, m);
    let kind = kind_at(ts, pos);
    if kind == TokenType::Bang || kind == TokenType::Not || kind == TokenType::Minus {
        unary_is_apart(ts, pos + 1, m);
    } else {
        call_is_apart(ts, pos, m, None);
    }
}

#[verifier::rlimit(80)]
pub proof fn call_is_apart(ts: Seq<TokenView>, pos: nat, m: MacroMap, piped: Option<ExprView>)
    requires
        ready(ts, pos, m),
        distinct_tokens(ts),
        apart_macros(m),
        apart_optional(piped),
    ensures
        kept_tree(ts, pos, call(ts, pos, m, piped)),
        apart_tree(call(ts, pos, m, piped)),
    decreases ts.len() - pos, 14nat,
{
    call_keeps(ts, pos, m, piped);
    primary_is_apart(ts, pos, m);
    let head = primary(ts, pos, m);
    if head.carries_on(ts, pos) {
        postfix_is_apart(ts, head.pos, head.macros, head.value(), piped);
    }
}

#[verifier::rlimit(80)]
pub proof fn postfix_is_apart(
    ts: Seq<TokenView>,
    pos: nat,
    m: MacroMap,
    expr: ExprView,
    piped: Option<ExprView>,
)
    requires
        ready(ts, pos, m),
        distinct_tokens(ts),
        !(expr is End),
        apart_macros(m),
        apart(expr),
        apart_optional(piped),
    ensures
        kept_node(ts, pos, postfix(ts, pos, m, expr, piped)),
        apart_tree(postfix(ts, pos, m, expr, piped)),
    decreases ts.len() - pos, 13nat,
{
    postfix_keeps(ts, pos, m, expr, piped);
    let kind = kind_at(ts, pos);
    if kind == TokenType::LParen {
        finish_call_is_apart(ts, pos + 1, m, expr, piped);
        let made = finish_call(ts, pos + 1, m, expr, piped);
        if made.carries_on(ts, pos + 1) {
            postfix_is_apart(ts, made.pos, made.macros, made.value(), None);
        }
    } else if kind == TokenType::Dot {
        binary_is_apart(ts, pos + 1, m, Level::Or);
        let member = binary(ts, pos + 1, m, Level::Or);
        if member.carries_on(ts, pos + 1) {
            postfix_is_apart(
                ts,
                member.pos,
                member.macros,
                ExprView::Get {
                    instance: Box::new(expr),
                    value: Box::new(member.value()),
                    token: token_at(ts, pos),
                },
                piped,
            );
        }
    } else if kind == TokenType::RPipe {
        call_is_apart(ts, pos + 1, m, Some(expr));
    } else if kind == TokenType::Question {
        ternary_is_apart(ts, pos + 1, m, expr, token_at(ts, pos));
        let made = ternary(ts, pos + 1, m, expr, token_at(ts, pos));
        if made.carries_on(ts, pos + 1) {
            postfix_is_apart(ts, made.pos, made.macros, made.value(), piped);
        }
    }
}

#[verifier::rlimit(80)]
pub proof fn ternary_is_apart(ts: Seq<TokenView>, pos: nat, m: MacroMap, cond: ExprView, mark: TokenView)
    requires
        ready(ts, pos, m),
        distinct_tokens(ts),
        apart_macros(m),
        apart(cond),
    ensures
        kept_tree(ts, pos, ternary(ts, pos, m, cond, mark)),
        apart_tree(ternary(ts, pos, m, cond, mark)),
    decreases ts.len() - pos, 51nat,
{
    ternary_keeps(ts, pos, m, cond, mark);
    expression_is_apart(ts, pos, m);
    let yes = expression(ts, pos, m);
    if yes.carries_on(ts, pos) && kind_at(ts, yes.pos) == TokenType::Colon {
        expression_is_apart(ts, yes.pos + 1, yes.macros);
        let no = expression(ts, yes.pos + 1, yes.macros);
        if no.out is Ok {
            lemma_ternary_node_apart(mark, cond, yes.value(), no.value());
        }
    }
}

#[verifier::rlimit(80)]
pub proof fn finish_call_is_apart(
    ts: Seq<TokenView>,
    pos: nat,
    m: MacroMap,
    callee: ExprView,
    piped: Option<ExprView>,
)
    requires
        ready(ts, pos, m),
        distinct_tokens(ts),
        apart_macros(m),
        apart(callee),
        apart_optional(piped),
    ensures
        kept_tree(ts, pos, finish_call(ts, pos, m, callee, piped)),
        apart_tree(finish_call(ts, pos, m, callee, piped)),
    decreases ts.len() - pos, 53nat,
{
    finish_call_keeps(ts, pos, m, callee, piped);
    let first = match piped {
        Some(p) => seq![CallArgView::Positional(p)],
        None => Seq::empty(),
    };
    match piped {
        Some(p) => {
            lemma_apart_args_push(Seq::empty(), CallArgView::Positional(p));
        },
        None => {},
    }
    arguments_is_apart(ts, pos, m, first);
    let args = arguments(ts, pos, m, first);
    if args.carries_on(ts, pos) && kind_at(ts, args.pos) == TokenType::RParen {
        assert(args.pos + 1 < ts.len());
        trailing_pipe_is_apart(ts, args.pos + 1, args.macros, args.value());
        let trailing = trailing_pipe(ts, args.pos + 1, args.macros, args.value());
        if trailing.carries_on(ts, args.pos + 1) {
            callback_pipe_is_apart(ts, trailing.pos, trailing.macros, trailing.value());
            let all = callback_pipe(ts, trailing.pos, trailing.macros, trailing.value());
            assert(kept(ts, trailing.pos, all));
            assert(pos < all.pos);
        } else {
            assert(trailing.out is Err);
        }
    }
}

#[verifier::rlimit(80)]
pub proof fn arguments_is_apart(
    ts: Seq<TokenView>,
    pos: nat,
    m: MacroMap,
    acc: Seq<CallArgView>,
)
    requires
        ready(ts, pos, m),
        distinct_tokens(ts),
        apart_macros(m),
        apart_args(acc),
    ensures
        kept(ts, pos, arguments(ts, pos, m, acc)),
        apart_args_step(arguments(ts, pos, m, acc)),
    decreases ts.len() - pos, 52nat,
{
    arguments_keeps(ts, pos, m, acc);
    if kind_at(ts, pos) != TokenType::RParen {
        more_arguments_is_apart(ts, pos, m, acc);
    }
}

#[verifier::rlimit(80)]
pub proof fn more_arguments_is_apart(
    ts: Seq<TokenView>,
    pos: nat,
    m: MacroMap,
    acc: Seq<CallArgView>,
)
    requires
        ready(ts, pos, m),
        distinct_tokens(ts),
        apart_macros(m),
        apart_args(acc),
    ensures
        kept(ts, pos, more_arguments(ts, pos, m, acc)),
        apart_args_step(more_arguments(ts, pos, m, acc)),
    decreases ts.len() - pos, 51nat,
{
    more_arguments_keeps(ts, pos, m, acc);
    let spread = kind_at(ts, pos) == TokenType::Ellipsis;
    let start = if spread {
        pos + 1
    } else {
        pos
    };
    expression_is_apart(ts, start, m);
    let arg = expression(ts, start, m);
    if arg.carries_on(ts, start) {
        let one = if spread {
            CallArgView::Unpacking(arg.value())
        } else {
            CallArgView::Positional(arg.value())
        };
        lemma_apart_args_push(acc, one);
        if kind_at(ts, arg.pos) == TokenType::Comma {
            more_arguments_is_apart(ts, arg.pos + 1, arg.macros, acc.push(one));
        }
    }
}

#[verifier::rlimit(80)]
pub proof fn trailing_pipe_is_apart(
    ts: Seq<TokenView>,
    pos: nat,
    m: MacroMap,
    args: Seq<CallArgView>,
)
    requires
        ready(ts, pos, m),
        distinct_tokens(ts),
        apart_macros(m),
        apart_args(args),
    ensures
        kept(ts, pos, trailing_pipe(ts, pos, m, args)),
        apart_args_step(trailing_pipe(ts, pos, m, args)),
    decreases ts.len() - pos, 51nat,
{
    trailing_pipe_keeps(ts, pos, m, args);
    if kind_at(ts, pos) == TokenType::LPipe {
        expression_is_apart(ts, pos + 1, m);
        let arg = expression(ts, pos + 1, m);
        if arg.out is Ok {
            lemma_apart_args_push(args, CallArgView::Positional(arg.value()));
        }
    }
}

#[verifier::rlimit(80)]
pub proof fn callback_pipe_is_apart(
    ts: Seq<TokenView>,
    pos: nat,
    m: MacroMap,
    args: Seq<CallArgView>,
)
    requires
        ready(ts, pos, m),
        distinct_tokens(ts),
        apart_macros(m),
        apart_args(args),
    ensures
        kept(ts, pos, callback_pipe(ts, pos, m, args)),
        apart_args_step(callback_pipe(ts, pos, m, args)),
    decreases ts.len() - pos, 51nat,
{
    callback_pipe_keeps(ts, pos, m, args);
    if kind_at(ts, pos) == TokenType::LTilde {
        if kind_at(ts, pos + 1) == TokenType::LParen {
            parameters_is_apart(ts, pos + 1, m);
        }
        let sig = if kind_at(ts, pos + 1) == TokenType::LParen {
            parameters(ts, pos + 1, m)
        } else {
            Step::ok(Signature { params: Seq::empty(), rest: None }, pos + 1, m)
        };
        if sig.carries_on(ts, pos + 1) {
            expression_is_apart(ts, sig.pos, sig.macros);
            let body = expression(ts, sig.pos, sig.macros);
            if kind_at(ts, pos + 1) == TokenType::LParen {
                rest_is_no_parameter(ts, pos + 1, m);
            }
            reveal(outside);
            if body.out is Ok {
                let made = ExprView::Func {
                    public: false,
                    name: None,
                    params: sig.value().params,
                    rest: sig.value().rest,
                    body: Box::new(body.value()),
                };
                assert(apart(made));
                lemma_apart_args_push(args, CallArgView::Positional(made));
            }
        }
    }
}

#[verifier::rlimit(80)]
pub proof fn parameters_is_apart(ts: Seq<TokenView>, pos: nat, m: MacroMap)
    requires
        ready(ts, pos, m),
        distinct_tokens(ts),
        apart_macros(m),
    ensures
        kept(ts, pos, parameters(ts, pos, m)),
        apart_macros_step(parameters(ts, pos, m)),
{
    parameters_keeps(ts, pos, m);
    if kind_at(ts, pos) == TokenType::LParen && kind_at(ts, pos + 1) != TokenType::RParen {
        parameter_items_is_apart(ts, pos + 1, m, Signature { params: Seq::empty(), rest: None });
    }
}

#[verifier::rlimit(80)]
pub proof fn parameter_items_is_apart(ts: Seq<TokenView>, pos: nat, m: MacroMap, sig: Signature)
    requires
        ready(ts, pos, m),
        distinct_tokens(ts),
        apart_macros(m),
    ensures
        kept(ts, pos, parameter_items(ts, pos, m, sig)),
        apart_macros_step(parameter_items(ts, pos, m, sig)),
    decreases ts.len() - pos,
{
    parameter_items_keeps(ts, pos, m, sig);
    if sig.rest is None {
        let kind = kind_at(ts, pos);
        let variadic = kind == TokenType::Id && kind_at(ts, pos + 1) == TokenType::Plus;
        let plain = (kind == TokenType::Id && !variadic) || kind == TokenType::Underscore;
        let grown = Signature {
            params: if plain {
                sig.params.push(token_at(ts, pos))
            } else {
                sig.params
            },
            rest: if variadic {
                Some(token_at(ts, pos))
            } else {
                None
            },
        };
        let next = if variadic {
            pos + 2
        } else if plain {
            pos + 1
        } else {
            pos
        };
        if kind_at(ts, next) == TokenType::Comma {
            parameter_items_is_apart(ts, next + 1, m, grown);
        }
    }
}

#[verifier::rlimit(80)]
pub proof fn primary_is_apart(ts: Seq<TokenView>, pos: nat, m: MacroMap)
    requires
        ready(ts, pos, m),
        distinct_tokens(ts),
        apart_macros(m),
    ensures
        kept_tree(ts, pos, primary(ts, pos, m)),
        apart_tree(primary(ts, pos, m)),
    decreases ts.len() - pos, 12nat,
{
    primary_keeps(ts, pos, m);
    let kind = kind_at(ts, pos);
    let token = token_at(ts, pos);
    if kind == TokenType::LParen {
        group_is_apart(ts, pos + 1, m);
    } else if kind == TokenType::LBracket {
        list_literal_is_apart(ts, pos + 1, m, token);
    } else if kind == TokenType::LBrace {
        braces_is_apart(ts, pos + 1, m, token);
    } else if kind == TokenType::MinusGT {
        lambda_is_apart(ts, pos + 1, m);
    } else if kind == TokenType::Func {
        function_is_apart(ts, pos, m, false, Seq::empty());
    } else if kind == TokenType::Public {
        function_is_apart(ts, pos + 1, m, true, Seq::empty());
    } else if kind == TokenType::At {
        decorated_is_apart(ts, pos + 1, m);
    } else if kind == TokenType::Match {
        match_expression_is_apart(ts, pos + 1, m, token);
    } else if kind == TokenType::Try {
        try_expression_is_apart(ts, pos + 1, m, token);
    } else if kind == TokenType::Unsafe {
        wrapped_is_apart(ts, pos + 1, m, token);
    } else if kind == TokenType::Dollar {
        wrapped_is_apart(ts, pos + 1, m, token);
    } else if kind == TokenType::Def {
        define_macro_is_apart(ts, pos + 1, m);
    } else if kind == TokenType::Redef {
        redefine_macro_is_apart(ts, pos + 1, m);
    }
}

#[verifier::rlimit(80)]
pub proof fn group_is_apart(ts: Seq<TokenView>, pos: nat, m: MacroMap)
    requires
        ready(ts, pos, m),
        distinct_tokens(ts),
        apart_macros(m),
    ensures
        kept_tree(ts, pos, group(ts, pos, m)),
        apart_tree(group(ts, pos, m)),
    decreases ts.len() - pos, 51nat,
{
    group_keeps(ts, pos, m);
    expression_is_apart(ts, pos, m);
}

#[verifier::rlimit(80)]
pub proof fn list_literal_is_apart(ts: Seq<TokenView>, pos: nat, m: MacroMap, mark: TokenView)
    requires
        ready(ts, pos, m),
        distinct_tokens(ts),
        apart_macros(m),
    ensures
        kept_tree(ts, pos, list_literal(ts, pos, m, mark)),
        apart_tree(list_literal(ts, pos, m, mark)),
    decreases ts.len() - pos, 51nat,
{
    list_literal_keeps(ts, pos, m, mark);
    list_items_is_apart(ts, pos, m, Seq::empty());
}

#[verifier::rlimit(80)]
pub proof fn list_items_is_apart(ts: Seq<TokenView>, pos: nat, m: MacroMap, acc: Seq<ExprView>)
    requires
        ready(ts, pos, m),
        distinct_tokens(ts),
        apart_macros(m),
        apart_all(acc),
    ensures
        kept(ts, pos, list_items(ts, pos, m, acc)),
        apart_exprs_step(list_items(ts, pos, m, acc)),
    decreases ts.len() - pos, 50nat,
{
    list_items_keeps(ts, pos, m, acc);
    if !(kind_at(ts, pos) == TokenType::RBracket || at_end(ts, pos)) {
        expression_is_apart(ts, pos, m);
        let item = expression(ts, pos, m);
        if item.carries_on(ts, pos) {
            lemma_apart_all_push(acc, item.value());
            if kind_at(ts, item.pos) == TokenType::Comma {
                list_items_is_apart(ts, item.pos + 1, item.macros, acc.push(item.value()));
            }
        }
    }
}

#[verifier::rlimit(80)]
pub proof fn braces_is_apart(ts: Seq<TokenView>, pos: nat, m: MacroMap, mark: TokenView)
    requires
        ready(ts, pos, m),
        distinct_tokens(ts),
        apart_macros(m),
    ensures
        kept_tree(ts, pos, braces(ts, pos, m, mark)),
        apart_tree(braces(ts, pos, m, mark)),
    decreases ts.len() - pos, 53nat,
{
    braces_keeps(ts, pos, m, mark);
    let keys = Seq::<TokenView>::empty();
    let values = Seq::<ExprView>::empty();
    assert(apart_all(values));
    assert(apart(ExprView::ObjectLiteral { token: mark, keys, values }));
    if kind_at(ts, pos) != TokenType::RBrace {
        expression_is_apart(ts, pos, m);
        let first = expression(ts, pos, m);
        if first.carries_on(ts, pos) && !at_end(ts, first.pos) {
            if kind_at(ts, first.pos) == TokenType::Colon {
                object_literal_is_apart(ts, first.pos + 1, first.macros, first.value());
            } else {
                block_is_apart(ts, first.pos, first.macros, first.value());
            }
        }
    }
}

#[verifier::rlimit(80)]
pub proof fn object_literal_is_apart(ts: Seq<TokenView>, pos: nat, m: MacroMap, key: ExprView)
    requires
        ready(ts, pos, m),
        distinct_tokens(ts),
        apart_macros(m),
        apart(key),
    ensures
        kept_tree(ts, pos, object_literal(ts, pos, m, key)),
        apart_tree(object_literal(ts, pos, m, key)),
    decreases ts.len() - pos, 52nat,
{
    object_literal_keeps(ts, pos, m, key);
    match key {
        ExprView::Variable { name } => {
            expression_is_apart(ts, pos, m);
            let value = expression(ts, pos, m);
            if value.carries_on(ts, pos) {
                lemma_apart_all_push(Seq::empty(), value.value());
                assert(apart_entries(Entries { keys: seq![name], values: seq![value.value()] }));
                if kind_at(ts, value.pos) == TokenType::Comma {
                    object_entries_is_apart(
                        ts,
                        value.pos + 1,
                        value.macros,
                        Entries { keys: seq![name], values: seq![value.value()] },
                    );
                }
            }
        },
        _ => {},
    }
}

#[verifier::rlimit(80)]
pub proof fn object_entries_is_apart(ts: Seq<TokenView>, pos: nat, m: MacroMap, acc: Entries)
    requires
        ready(ts, pos, m),
        distinct_tokens(ts),
        apart_macros(m),
        apart_entries(acc),
    ensures
        kept(ts, pos, object_entries(ts, pos, m, acc)),
        apart_entries_step(object_entries(ts, pos, m, acc)),
    decreases ts.len() - pos, 50nat,
{
    object_entries_keeps(ts, pos, m, acc);
    if !(kind_at(ts, pos) == TokenType::RBrace || at_end(ts, pos)) && kind_at(ts, pos)
        == TokenType::Id && kind_at(ts, pos + 1) == TokenType::Colon {
        expression_is_apart(ts, pos + 2, m);
        let value = expression(ts, pos + 2, m);
        if value.carries_on(ts, pos + 2) {
            lemma_apart_all_push(acc.values, value.value());
            let grown = Entries {
                keys: acc.keys.push(token_at(ts, pos)),
                values: acc.values.push(value.value()),
            };
            assert(apart_entries(grown));
            if kind_at(ts, value.pos) == TokenType::Comma {
                object_entries_is_apart(ts, value.pos + 1, value.macros, grown);
            }
        }
    }
}

#[verifier::rlimit(80)]
pub proof fn block_is_apart(ts: Seq<TokenView>, pos: nat, m: MacroMap, first: ExprView)
    requires
        ready(ts, pos, m),
        distinct_tokens(ts),
        apart_macros(m),
        apart(first),
    ensures
        kept(ts, pos, block(ts, pos, m, first)),
        block(ts, pos, m, first).out matches Ok(e) ==> !(e is End) && pos < block(
            ts,
            pos,
            m,
            first,
        ).pos,
        apart_tree(block(ts, pos, m, first)),
    decreases ts.len() - pos, 51nat,
{
    block_keeps(ts, pos, m, first);
    lemma_apart_all_push(Seq::empty(), first);
    block_items_is_apart(ts, pos, m, seq![first]);
}

#[verifier::rlimit(80)]
pub proof fn block_items_is_apart(ts: Seq<TokenView>, pos: nat, m: MacroMap, acc: Seq<ExprView>)
    requires
        ready(ts, pos, m),
        distinct_tokens(ts),
        apart_macros(m),
        apart_all(acc),
    ensures
        kept(ts, pos, block_items(ts, pos, m, acc)),
        apart_exprs_step(block_items(ts, pos, m, acc)),
    decreases ts.len() - pos, 50nat,
{
    block_items_keeps(ts, pos, m, acc);
    if !(kind_at(ts, pos) == TokenType::RBrace || at_end(ts, pos)) {
        expression_is_apart(ts, pos, m);
        let item = expression(ts, pos, m);
        if item.moves_on(ts, pos) {
            lemma_apart_all_push(acc, item.value());
            block_items_is_apart(ts, item.pos, item.macros, acc.push(item.value()));
        }
    }
}

#[verifier::rlimit(80)]
pub proof fn lambda_is_apart(ts: Seq<TokenView>, pos: nat, m: MacroMap)
    requires
        ready(ts, pos, m),
        distinct_tokens(ts),
        apart_macros(m),
    ensures
        kept_tree(ts, pos, lambda(ts, pos, m)),
        apart_tree(lambda(ts, pos, m)),
    decreases ts.len() - pos, 51nat,
{
    reveal(outside);
    lambda_keeps(ts, pos, m);
    expression_is_apart(ts, pos, m);
}

#[verifier::rlimit(80)]
pub proof fn function_is_apart(
    ts: Seq<TokenView>,
    pos: nat,
    m: MacroMap,
    public: bool,
    decorators: Seq<DecoratorView>,
)
    requires
        ready(ts, pos, m),
        distinct_tokens(ts),
        apart_macros(m),
        apart_decorators(decorators),
    ensures
        kept_tree(ts, pos, function(ts, pos, m, public, decorators)),
        apart_tree(function(ts, pos, m, public, decorators)),
    decreases ts.len() - pos, 11nat,
{
    function_keeps(ts, pos, m, public, decorators);
    let marked = !public && kind_at(ts, pos) == TokenType::Public;
    let start = if marked {
        pos + 1
    } else {
        pos
    };
    if kind_at(ts, start) == TokenType::Func {
        let named = kind_at(ts, start + 1) == TokenType::Id;
        let open = if named {
            start + 2
        } else {
            start + 1
        };
        parameters_is_apart(ts, open, m);
        let sig = parameters(ts, open, m);
        if sig.carries_on(ts, open) {
            expression_is_apart(ts, sig.pos, sig.macros);
            let body = expression(ts, sig.pos, sig.macros);
            let name = if named {
                Some(token_at(ts, start + 1))
            } else {
                None
            };
            rest_is_no_parameter(ts, open, m);
            reveal(outside);
            if body.out is Ok {
                lemma_function_node_apart(
                    public || marked,
                    name,
                    sig.value(),
                    body.value(),
                    decorators,
                    previous_at(ts, body.pos),
                    body.pos,
                    body.macros,
                );
            }
        }
    }
}

#[verifier::rlimit(80)]
pub proof fn decorated_is_apart(ts: Seq<TokenView>, pos: nat, m: MacroMap)
    requires
        ready(ts, pos, m),
        distinct_tokens(ts),
        apart_macros(m),
    ensures
        kept_tree(ts, pos, decorated(ts, pos, m)),
        apart_tree(decorated(ts, pos, m)),
    decreases ts.len() - pos, 55nat,
{
    decorated_keeps(ts, pos, m);
    if kind_at(ts, pos) == TokenType::LBracket {
        decorators_is_apart(ts, pos + 1, m, Seq::empty());
        let list = decorators(ts, pos + 1, m, Seq::empty());
        if list.carries_on(ts, pos + 1) && kind_at(ts, list.pos) == TokenType::RBracket {
            function_is_apart(ts, list.pos + 1, list.macros, false, list.value());
        }
    }
}

#[verifier::rlimit(80)]
pub proof fn decorators_is_apart(ts: Seq<TokenView>, pos: nat, m: MacroMap, acc: Seq<DecoratorView>)
    requires
        ready(ts, pos, m),
        distinct_tokens(ts),
        apart_macros(m),
        apart_decorators(acc),
    ensures
        kept(ts, pos, decorators(ts, pos, m, acc)),
        apart_decorators_step(decorators(ts, pos, m, acc)),
    decreases ts.len() - pos, 54nat,
{
    decorators_keeps(ts, pos, m, acc);
    if kind_at(ts, pos) != TokenType::RBracket && kind_at(ts, pos) == TokenType::Id {
        let name = token_at(ts, pos);
        let next = pos + 1;
        if kind_at(ts, next) == TokenType::LParen {
            arguments_is_apart(ts, next + 1, m, Seq::empty());
            let args = arguments(ts, next + 1, m, Seq::empty());
            if args.carries_on(ts, next + 1) && kind_at(ts, args.pos) == TokenType::RParen {
                let one = DecoratorView { name, args: args.value() };
                assert(apart_decorators(acc.push(one)));
                if kind_at(ts, args.pos + 1) == TokenType::Comma {
                    decorators_is_apart(ts, args.pos + 2, args.macros, acc.push(one));
                }
            }
        } else {
            let one = DecoratorView { name, args: Seq::empty() };
            assert(apart_decorators(acc.push(one)));
            if kind_at(ts, next) == TokenType::Comma {
                decorators_is_apart(ts, next + 1, m, acc.push(one));
            }
        }
    }
}

#[verifier::rlimit(80)]
pub proof fn match_expression_is_apart(ts: Seq<TokenView>, pos: nat, m: MacroMap, mark: TokenView)
    requires
        ready(ts, pos, m),
        distinct_tokens(ts),
        apart_macros(m),
    ensures
        kept_tree(ts, pos, match_expression(ts, pos, m, mark)),
        apart_tree(match_expression(ts, pos, m, mark)),
    decreases ts.len() - pos, 51nat,
{
    match_expression_keeps(ts, pos, m, mark);
    expression_is_apart(ts, pos, m);
    let cond = expression(ts, pos, m);
    if cond.carries_on(ts, pos) && kind_at(ts, cond.pos) == TokenType::LBrace {
        match_branches_is_apart(ts, cond.pos + 1, cond.macros, Seq::empty());
    }
}

#[verifier::rlimit(80)]
pub proof fn match_branches_is_apart(
    ts: Seq<TokenView>,
    pos: nat,
    m: MacroMap,
    acc: Seq<MatchBranchView>,
)
    requires
        ready(ts, pos, m),
        distinct_tokens(ts),
        apart_macros(m),
        apart_branches(acc),
    ensures
        kept(ts, pos, match_branches(ts, pos, m, acc)),
        apart_branches_step(match_branches(ts, pos, m, acc)),
    decreases ts.len() - pos, 50nat,
{
    match_branches_keeps(ts, pos, m, acc);
    if kind_at(ts, pos) != TokenType::RBrace {
        expression_is_apart(ts, pos, m);
        let target = expression(ts, pos, m);
        if target.carries_on(ts, pos) && kind_at(ts, target.pos) == TokenType::MinusGT {
            expression_is_apart(ts, target.pos + 1, target.macros);
            let body = expression(ts, target.pos + 1, target.macros);
            if body.carries_on(ts, target.pos + 1) {
                let one = MatchBranchView { target: target.value(), body: body.value() };
                assert(apart_branch(one));
                assert(apart_branches(acc.push(one)));
                if kind_at(ts, body.pos) == TokenType::Comma {
                    match_branches_is_apart(ts, body.pos + 1, body.macros, acc.push(one));
                }
            }
        }
    }
}

#[verifier::rlimit(80)]
pub proof fn try_expression_is_apart(ts: Seq<TokenView>, pos: nat, m: MacroMap, mark: TokenView)
    requires
        ready(ts, pos, m),
        distinct_tokens(ts),
        apart_macros(m),
    ensures
        kept_tree(ts, pos, try_expression(ts, pos, m, mark)),
        apart_tree(try_expression(ts, pos, m, mark)),
    decreases ts.len() - pos, 51nat,
{
    try_expression_keeps(ts, pos, m, mark);
    expression_is_apart(ts, pos, m);
    let result = expression(ts, pos, m);
    if result.carries_on(ts, pos) {
        expression_is_apart(ts, result.pos, result.macros);
        let handler = expression(ts, result.pos, result.macros);
        if handler.carries_on(ts, result.pos) {
            if kind_at(ts, handler.pos) == TokenType::Else {
                expression_is_apart(ts, handler.pos + 1, handler.macros);
            }
            let success = if kind_at(ts, handler.pos) == TokenType::Else {
                expression(ts, handler.pos + 1, handler.macros)
            } else {
                Step::ok(ExprView::Null { token: mark }, handler.pos, handler.macros)
            };
            if success.out is Ok {
                lemma_try_node_apart(mark, result.value(), handler.value(), success.value());
            }
        }
    }
}

#[verifier::rlimit(80)]
pub proof fn wrapped_is_apart(ts: Seq<TokenView>, pos: nat, m: MacroMap, mark: TokenView)
    requires
        ready(ts, pos, m),
        distinct_tokens(ts),
        apart_macros(m),
    ensures
        kept_tree(ts, pos, unsafe_expression(ts, pos, m, mark)),
        kept_tree(ts, pos, shell_expression(ts, pos, m, mark)),
        apart_tree(unsafe_expression(ts, pos, m, mark)),
        apart_tree(shell_expression(ts, pos, m, mark)),
    decreases ts.len() - pos, 51nat,
{
    wrapped_keeps(ts, pos, m, mark);
    expression_is_apart(ts, pos, m);
}

#[verifier::rlimit(80)]
pub proof fn define_macro_is_apart(ts: Seq<TokenView>, pos: nat, m: MacroMap)
    requires
        ready(ts, pos, m),
        distinct_tokens(ts),
        apart_macros(m),
    ensures
        kept_tree(ts, pos, define_macro(ts, pos, m)),
        apart_tree(define_macro(ts, pos, m)),
    decreases ts.len() - pos, 51nat,
{
    define_macro_keeps(ts, pos, m);
    if kind_at(ts, pos) == TokenType::Id {
        expression_is_apart(ts, pos + 1, m);
    }
}

#[verifier::rlimit(80)]
pub proof fn redefine_macro_is_apart(ts: Seq<TokenView>, pos: nat, m: MacroMap)
    requires
        ready(ts, pos, m),
        distinct_tokens(ts),
        apart_macros(m),
    ensures
        kept_tree(ts, pos, redefine_macro(ts, pos, m)),
        apart_tree(redefine_macro(ts, pos, m)),
    decreases ts.len() - pos, 51nat,
{
    redefine_macro_keeps(ts, pos, m);
    if kind_at(ts, pos) == TokenType::Id {
        expression_is_apart(ts, pos + 1, m);
    }
}

/// One turn of the top-level loop hands on a tree, and leaves macros, whose
/// rest parameters stand apart.
pub proof fn top_level_is_apart(ts: Seq<TokenView>, pos: nat, m: MacroMap)
    requires
        ready(ts, pos, m),
        distinct_tokens(ts),
        apart_macros(m),
    ensures
        apart_macros(top_level(ts, pos, m).macros),
        top_level(ts, pos, m).node matches Some(e) ==> apart(e),
{
    expression_is_apart(ts, pos, m);
}

/// The top-level loop adds only trees whose rest parameters stand apart.
pub proof fn program_is_apart(
    ts: Seq<TokenView>,
    pos: nat,
    m: MacroMap,
    nodes: Seq<ExprView>,
    errors: Seq<ErrorView>,
)
    requires
        ready(ts, pos, m),
        distinct_tokens(ts),
        apart_macros(m),
        apart_all(nodes),
    ensures
        apart_all(program(ts, pos, m, nodes, errors).nodes),
        apart_macros(program(ts, pos, m, nodes, errors).macros),
    decreases ts.len() - pos,
{
    if !at_end(ts, pos) {
        top_level_keeps(ts, pos, m);
        top_level_is_apart(ts, pos, m);
        let turn = top_level(ts, pos, m);
        match turn.node {
            Some(e) => {
                lemma_apart_all_push(nodes, e);
            },
            None => {},
        }
        program_is_apart(
            ts,
            turn.pos,
            turn.macros,
            with_optional(nodes, turn.node),
            with_optional(errors, turn.error),
        );
    }
}

/// In a stream in which no token stands twice, wherever a function stands in
/// a tree that the stream parses to, its rest parameter is none of its plain
/// parameters.
pub proof fn rests_stand_apart(ts: Seq<TokenView>)
    requires
        well_formed(ts),
        distinct_tokens(ts),
    ensures
        apart_all(parsed(ts).nodes),
{
    program_is_apart(ts, 0, Map::empty(), Seq::empty(), Seq::empty());
}

/// What standing apart says of a function itself.
pub proof fn apart_function(e: ExprView)
    requires
        apart(e),
        e is Func,
        e->rest is Some,
    ensures
        !e->params.contains(e->rest->Some_0),
{
    reveal(outside);
}

} // verus!
