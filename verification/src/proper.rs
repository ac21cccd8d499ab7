//! The trees are proper. Whatever the parser recognises on a stream that
//! ends in an end-of-file token, every object literal in it has as many
//! keys as values, every key of it is an identifier, and every variable is
//! named by an identifier.

use vstd::prelude::*;
use crate::ast::{CallArgView, Expr, ExprView, MatchBranchView};
use crate::error::ErrorKind;
use crate::error::ErrorView;
use crate::grammar::{
    arguments, assignment, at_end, binary, binary_tail, bind, block, block_items, braces, call,
    callback_pipe, combine, compound, decorate, decorated, decorators, define_macro, expression,
    finish_call, function, function_node, group, increment, is_binding, is_compound, is_operator,
    kind_at, lambda, level_rank, list_items, list_literal, match_branches, match_expression,
    member_token,
    more_arguments, object_entries, object_literal, operand, parameter_items, parameters, parsed,
    plain_operator, postfix, previous_at, primary, program, redefine_macro, shell_expression,
    ternary, ternary_node, token_at, top_level, trailing_pipe, try_expression, try_node, unary,
    unsafe_expression, well_formed, with_optional, DecoratorView, Entries, Level, MacroMap,
    Signature, Step,
};
use crate::soundness::{
    arguments_keeps, assignment_keeps, binary_keeps, binary_tail_keeps, block_items_keeps,
    block_keeps, braces_keeps, call_keeps, callback_pipe_keeps, decorated_keeps, decorators_keeps,
    define_macro_keeps, expression_keeps, finish_call_keeps, function_keeps, group_keeps, kept,
    kept_node, kept_tree, lambda_keeps, list_items_keeps, list_literal_keeps,
    match_branches_keeps, match_expression_keeps, more_arguments_keeps, object_entries_keeps,
    object_literal_keeps, operand_keeps, parameter_items_keeps, parameters_keeps, postfix_keeps,
    primary_keeps, ready, redefine_macro_keeps, ternary_keeps, top_level_keeps,
    trailing_pipe_keeps, try_expression_keeps, unary_keeps, wrapped_keeps,
};
use crate::token::{TokenType, TokenView};

verus! {

/// Whether every token of `keys` is an identifier.
pub open spec fn identifiers(keys: Seq<TokenView>) -> bool {
    forall|i: int| 0 <= i < keys.len() ==> (#[trigger] keys[i]).kind == TokenType::Id
}

/// Whether a tree is proper: throughout it, an object literal has as many
/// keys as values and identifiers for keys, and a variable is named by an
/// identifier.
pub open spec fn proper(e: ExprView) -> bool
    decreases e,
{
    match e {
        ExprView::Binary { left, right, op } => proper(*left) && proper(*right),
        ExprView::Group { expr } => proper(*expr),
        ExprView::Unary { right, op } => proper(*right),
        ExprView::ListLiteral { token, values } => proper_all(values),
        ExprView::ObjectLiteral { token, keys, values } => keys.len() == values.len()
            && identifiers(keys) && proper_all(values),
        ExprView::Logical { left, right, op } => proper(*left) && proper(*right),
        ExprView::Variable { name } => name.kind == TokenType::Id,
        ExprView::Assign { init, public, mutable, token, left, right } => proper(*left) && proper(
            *right,
        ),
        ExprView::Call { callee, args, token } => proper(*callee) && proper_args(args),
        ExprView::Get { instance, value, token } => proper(*instance) && proper(*value),
        ExprView::SetMember { instance, member, token, value } => proper(*instance) && proper(
            *member,
        ) && proper(*value),
        ExprView::Func { public, name, params, rest, body } => proper(*body),
        ExprView::Match { token, condition, branches } => proper(*condition) && proper_branches(
            branches,
        ),
        ExprView::Block { token, exprs } => proper_all(exprs),
        ExprView::Unsafe { token, expr } => proper(*expr),
        ExprView::Shell { token, expr } => proper(*expr),
        _ => true,
    }
}

/// Whether every tree of a run is proper.
pub open spec fn proper_all(items: Seq<ExprView>) -> bool
    decreases items,
{
    forall|i: int| 0 <= i < items.len() ==> proper(#[trigger] items[i])
}

/// Whether the tree of a call argument is proper.
pub open spec fn proper_arg(arg: CallArgView) -> bool
    decreases arg,
{
    match arg {
        CallArgView::Positional(e) => proper(e),
        CallArgView::Unpacking(e) => proper(e),
    }
}

/// Whether the trees of a run of call arguments are proper.
pub open spec fn proper_args(args: Seq<CallArgView>) -> bool
    decreases args,
{
    forall|i: int| 0 <= i < args.len() ==> proper_arg(#[trigger] args[i])
}

/// Whether both trees of a match branch are proper.
pub open spec fn proper_branch(branch: MatchBranchView) -> bool
    decreases branch,
{
    proper(branch.target) && proper(branch.body)
}

/// Whether the trees of a run of match branches are proper.
pub open spec fn proper_branches(branches: Seq<MatchBranchView>) -> bool
    decreases branches,
{
    forall|i: int| 0 <= i < branches.len() ==> proper_branch(#[trigger] branches[i])
}

/// Whether object entries are proper: as many keys as values, the keys
/// identifiers, the values proper.
pub open spec fn proper_entries(entries: Entries) -> bool {
    entries.keys.len() == entries.values.len() && identifiers(entries.keys) && proper_all(
        entries.values,
    )
}

/// Whether decorators are proper: each is named by an identifier and has
/// proper arguments.
pub open spec fn proper_decorators(decorators: Seq<DecoratorView>) -> bool {
    forall|i: int|
        0 <= i < decorators.len() ==> (#[trigger] decorators[i]).name.kind == TokenType::Id
            && proper_args(decorators[i].args)
}

/// Whether every macro stands for a proper tree.
pub open spec fn proper_macros(m: MacroMap) -> bool {
    forall|name: Seq<char>| m.dom().contains(name) ==> proper(#[trigger] m[name])
}

/// Whether an optional tree is proper.
pub open spec fn proper_optional(e: Option<ExprView>) -> bool {
    e matches Some(tree) ==> proper(tree)
}

/// Whether a rule of the parser handed on a proper tree, if it handed on
/// any.
pub open spec fn proper_result(r: Result<Expr, ErrorKind>) -> bool {
    r matches Ok(e) ==> proper(e@)
}

/// A step that leaves proper macros.
pub open spec fn proper_macros_step<T>(s: Step<T>) -> bool {
    proper_macros(s.macros)
}

/// A step that leaves proper macros and, if it recognised a tree, a proper
/// one.
pub open spec fn proper_tree(s: Step<ExprView>) -> bool {
    proper_macros(s.macros) && (s.out matches Ok(e) ==> proper(e))
}

/// [`proper_tree`], for a step that yields a run of trees.
pub open spec fn proper_exprs_step(s: Step<Seq<ExprView>>) -> bool {
    proper_macros(s.macros) && (s.out matches Ok(es) ==> proper_all(es))
}

/// [`proper_tree`], for a step that yields call arguments.
pub open spec fn proper_args_step(s: Step<Seq<CallArgView>>) -> bool {
    proper_macros(s.macros) && (s.out matches Ok(args) ==> proper_args(args))
}

/// [`proper_tree`], for a step that yields object entries.
pub open spec fn proper_entries_step(s: Step<Entries>) -> bool {
    proper_macros(s.macros) && (s.out matches Ok(entries) ==> proper_entries(entries))
}

/// [`proper_tree`], for a step that yields match branches.
pub open spec fn proper_branches_step(s: Step<Seq<MatchBranchView>>) -> bool {
    proper_macros(s.macros) && (s.out matches Ok(branches) ==> proper_branches(branches))
}

/// [`proper_tree`], for a step that yields decorators.
pub open spec fn proper_decorators_step(s: Step<Seq<DecoratorView>>) -> bool {
    proper_macros(s.macros) && (s.out matches Ok(decorators) ==> proper_decorators(decorators))
}

proof fn lemma_proper_all_push(items: Seq<ExprView>, e: ExprView)
    requires
        proper_all(items),
        proper(e),
    ensures
        proper_all(items.push(e)),
{
    assert forall|i: int| 0 <= i < items.push(e).len() implies proper(
        #[trigger] items.push(e)[i],
    ) by {
        if i < items.len() {
            assert(items.push(e)[i] == items[i]);
        }
    }
}

proof fn lemma_proper_args_push(args: Seq<CallArgView>, a: CallArgView)
    requires
        proper_args(args),
        proper_arg(a),
    ensures
        proper_args(args.push(a)),
{
    assert forall|i: int| 0 <= i < args.push(a).len() implies proper_arg(
        #[trigger] args.push(a)[i],
    ) by {
        if i < args.len() {
            assert(args.push(a)[i] == args[i]);
        }
    }
}

proof fn lemma_bind_proper(left: ExprView, right: ExprView, kind: TokenType, pos: nat, m: MacroMap)
    requires
        proper(left),
        proper(right),
    ensures
        bind(left, right, kind, pos, m).out matches Ok(e) ==> proper(e),
{
    match left {
        ExprView::Get { instance, value, token } => {
            let made = ExprView::SetMember {
                instance,
                member: value,
                token: member_token(*value, token),
                value: Box::new(right),
            };
            assert(proper(made));
        },
        _ => {},
    }
}

proof fn lemma_compound_proper(left: ExprView, right: ExprView, op: TokenView, pos: nat, m: MacroMap)
    requires
        proper(left),
        proper(right),
    ensures
        compound(left, right, op, pos, m).out matches Ok(e) ==> proper(e),
{
    let sum = ExprView::Binary {
        left: Box::new(left),
        right: Box::new(right),
        op: op.with_kind(plain_operator(op.kind)),
    };
    assert(proper(sum));
}

proof fn lemma_increment_proper(left: ExprView, op: TokenView, pos: nat, m: MacroMap)
    requires
        proper(left),
    ensures
        increment(left, op, pos, m).out matches Ok(e) ==> proper(e),
{
    let sign = op.with_kind(
        if op.kind == TokenType::DPlus {
            TokenType::Plus
        } else {
            TokenType::Minus
        },
    );
    let one = ExprView::IntegerLiteral { token: sign, value: 1 };
    assert(proper(one));
    let sum = ExprView::Binary { left: Box::new(left), right: Box::new(one), op: sign };
    assert(proper(sum));
}

proof fn lemma_decorate_proper(decorators: Seq<DecoratorView>, inner: ExprView, mark: TokenView)
    requires
        proper_decorators(decorators),
        proper(inner),
    ensures
        proper(decorate(decorators, inner, mark)),
    decreases decorators.len(),
{
    if decorators.len() > 0 {
        let last = decorators.last();
        assert(last == decorators[decorators.len() - 1]);
        assert forall|i: int| 0 <= i < decorators.drop_last().len() implies (
        #[trigger] decorators.drop_last()[i]).name.kind == TokenType::Id && proper_args(
            decorators.drop_last()[i].args,
        ) by {
            assert(decorators.drop_last()[i] == decorators[i]);
        }
        lemma_decorate_proper(decorators.drop_last(), inner, mark);
        let wrapped = decorate(decorators.drop_last(), inner, mark);
        let first = CallArgView::Positional(wrapped);
        let all = seq![first] + last.args;
        assert forall|i: int| 0 <= i < all.len() implies proper_arg(#[trigger] all[i]) by {
            if i > 0 {
                assert(all[i] == last.args[i - 1]);
            }
        }
        assert(proper_args(all));
        let callee = ExprView::Variable { name: last.name };
        assert(proper(callee));
        let made = ExprView::Call { callee: Box::new(callee), args: all, token: mark };
        assert(proper(made));
    }
}

proof fn lemma_function_node_proper(
    public: bool,
    name: Option<TokenView>,
    sig: Signature,
    body: ExprView,
    decorators: Seq<DecoratorView>,
    mark: TokenView,
    pos: nat,
    m: MacroMap,
)
    requires
        proper(body),
        proper_decorators(decorators),
        name matches Some(n) ==> n.kind == TokenType::Id,
    ensures
        function_node(public, name, sig, body, decorators, mark, pos, m).out matches Ok(e)
            ==> proper(e),
{
    let bare = ExprView::Func {
        public: false,
        name: None,
        params: sig.params,
        rest: sig.rest,
        body: Box::new(body),
    };
    assert(proper(bare));
    let plain = ExprView::Func { public, name, params: sig.params, rest: sig.rest, body: Box::new(body) };
    assert(proper(plain));
    if decorators.len() > 0 {
        lemma_decorate_proper(decorators, bare, mark);
        match name {
            Some(n) => {
                let target = ExprView::Variable { name: n };
                assert(proper(target));
                let made = ExprView::Assign {
                    init: true,
                    public,
                    mutable: false,
                    token: n,
                    left: Box::new(target),
                    right: Box::new(decorate(decorators, bare, mark)),
                };
                assert(proper(made));
            },
            None => {},
        }
    }
}

proof fn lemma_two_branches_proper(first: MatchBranchView, second: MatchBranchView)
    requires
        proper_branch(first),
        proper_branch(second),
    ensures
        proper_branches(seq![first, second]),
{
    let both = seq![first, second];
    assert forall|i: int| 0 <= i < both.len() implies proper_branch(#[trigger] both[i]) by {
        if i == 0 {
            assert(both[i] == first);
        } else {
            assert(both[i] == second);
        }
    }
}

proof fn lemma_ternary_node_proper(mark: TokenView, cond: ExprView, yes: ExprView, no: ExprView)
    requires
        proper(cond),
        proper(yes),
        proper(no),
    ensures
        proper(ternary_node(mark, cond, yes, no)),
{
    let truth = ExprView::BoolLiteral { token: mark, payload: true };
    let other = ExprView::Underscore { token: mark };
    assert(proper(truth));
    assert(proper(other));
    let first = MatchBranchView { target: truth, body: yes };
    let second = MatchBranchView { target: other, body: no };
    assert(proper_branch(first));
    assert(proper_branch(second));
    lemma_two_branches_proper(first, second);
    let made = ExprView::Match {
        token: mark,
        condition: Box::new(cond),
        branches: seq![first, second],
    };
    assert(proper(made));
}

proof fn lemma_try_node_proper(mark: TokenView, result: ExprView, handler: ExprView, success: ExprView)
    requires
        proper(result),
        proper(handler),
        proper(success),
    ensures
        proper(try_node(mark, result, handler, success)),
{
    let probe = TokenView { kind: TokenType::Id, lexeme: "error?"@, line: mark.line, col: mark.col };
    let callee = ExprView::Variable { name: probe };
    assert(proper(callee));
    let arg = CallArgView::Positional(result);
    assert(proper_arg(arg));
    lemma_proper_args_push(Seq::empty(), arg);
    assert(seq![arg] =~= Seq::<CallArgView>::empty().push(arg));
    let condition = ExprView::Call { callee: Box::new(callee), args: seq![arg], token: mark };
    assert(proper(condition));
    let truth = ExprView::BoolLiteral { token: mark, payload: true };
    let falsity = ExprView::BoolLiteral { token: mark, payload: false };
    assert(proper(truth));
    assert(proper(falsity));
    let first = MatchBranchView { target: truth, body: handler };
    let second = MatchBranchView { target: falsity, body: success };
    assert(proper_branch(first));
    assert(proper_branch(second));
    lemma_two_branches_proper(first, second);
    let made = ExprView::Match {
        token: mark,
        condition: Box::new(condition),
        branches: seq![first, second],
    };
    assert(proper(made));
}

/// An expression yields a proper tree.
#[verifier::rlimit(80)]
pub proof fn expression_is_proper(ts: Seq<TokenView>, pos: nat, m: MacroMap)
    requires
        ready(ts, pos, m),
        proper_macros(m),
    ensures
        kept_tree(ts, pos, expression(ts, pos, m)),
        proper_tree(expression(ts, pos, m)),
    decreases ts.len() - pos, 40nat,
{
    expression_keeps(ts, pos, m);
    assignment_is_proper(ts, pos, m);
}

#[verifier::rlimit(80)]
pub proof fn assignment_is_proper(ts: Seq<TokenView>, pos: nat, m: MacroMap)
    requires
        ready(ts, pos, m),
        proper_macros(m),
    ensures
        kept_tree(ts, pos, assignment(ts, pos, m)),
        proper_tree(assignment(ts, pos, m)),
    decreases ts.len() - pos, 39nat,
{
    assignment_keeps(ts, pos, m);
    binary_is_proper(ts, pos, m, Level::Or);
    let target = binary(ts, pos, m, Level::Or);
    if target.carries_on(ts, pos) {
        let kind = kind_at(ts, target.pos);
        if is_binding(kind) {
            assignment_is_proper(ts, target.pos + 1, target.macros);
            let value = assignment(ts, target.pos + 1, target.macros);
            if value.out is Ok {
                lemma_bind_proper(target.value(), value.value(), kind, value.pos, value.macros);
            }
        } else if is_compound(kind) {
            assignment_is_proper(ts, target.pos + 1, target.macros);
            let value = assignment(ts, target.pos + 1, target.macros);
            if value.out is Ok {
                lemma_compound_proper(
                    target.value(),
                    value.value(),
                    token_at(ts, target.pos),
                    value.pos,
                    value.macros,
                );
            }
        } else if kind == TokenType::DPlus || kind == TokenType::DMinus {
            lemma_increment_proper(
                target.value(),
                token_at(ts, target.pos),
                target.pos + 1,
                target.macros,
            );
        }
    }
}

#[verifier::rlimit(80)]
pub proof fn operand_is_proper(ts: Seq<TokenView>, pos: nat, m: MacroMap, level: Level)
    requires
        ready(ts, pos, m),
        proper_macros(m),
    ensures
        kept_tree(ts, pos, operand(ts, pos, m, level)),
        proper_tree(operand(ts, pos, m, level)),
    decreases ts.len() - pos, 21 + 2 * level_rank(level),
{
    operand_keeps(ts, pos, m, level);
    match level {
        Level::Factor => unary_is_proper(ts, pos, m),
        Level::Term => binary_is_proper(ts, pos, m, Level::Factor),
        Level::Comparison => binary_is_proper(ts, pos, m, Level::Term),
        Level::Equality => binary_is_proper(ts, pos, m, Level::Comparison),
        Level::And => binary_is_proper(ts, pos, m, Level::Equality),
        Level::Or => binary_is_proper(ts, pos, m, Level::And),
    }
}

#[verifier::rlimit(80)]
pub proof fn binary_is_proper(ts: Seq<TokenView>, pos: nat, m: MacroMap, level: Level)
    requires
        ready(ts, pos, m),
        proper_macros(m),
    ensures
        kept_tree(ts, pos, binary(ts, pos, m, level)),
        proper_tree(binary(ts, pos, m, level)),
    decreases ts.len() - pos, 22 + 2 * level_rank(level),
{
    binary_keeps(ts, pos, m, level);
    operand_is_proper(ts, pos, m, level);
    let first = operand(ts, pos, m, level);
    if first.carries_on(ts, pos) {
        binary_tail_is_proper(ts, first.pos, first.macros, level, first.value());
    }
}

#[verifier::rlimit(80)]
pub proof fn binary_tail_is_proper(ts: Seq<TokenView>, pos: nat, m: MacroMap, level: Level, left: ExprView)
    requires
        ready(ts, pos, m),
        !(left is End),
        proper_macros(m),
        proper(left),
    ensures
        kept_node(ts, pos, binary_tail(ts, pos, m, level, left)),
        proper_tree(binary_tail(ts, pos, m, level, left)),
    decreases ts.len() - pos, 20nat,
{
    binary_tail_keeps(ts, pos, m, level, left);
    if is_operator(level, kind_at(ts, pos)) {
        operand_is_proper(ts, pos + 1, m, level);
        let right = operand(ts, pos + 1, m, level);
        if right.carries_on(ts, pos + 1) {
            binary_tail_is_proper(
                ts,
                right.pos,
                right.macros,
                level,
                combine(level, left, right.value(), token_at(ts, pos)),
            );
        }
    }
}

#[verifier::rlimit(80)]
pub proof fn unary_is_proper(ts: Seq<TokenView>, pos: nat, m: MacroMap)
    requires
        ready(ts, pos, m),
        proper_macros(m),
    ensures
        kept_tree(ts, pos, unary(ts, pos, m)),
        proper_tree(unary(ts, pos, m)),
    decreases ts.len() - pos, 15nat,
{
    unary_keeps(ts, pos, m);
    let kind = kind_at(ts, pos);
    if kind == TokenType::Bang || kind == TokenType::Not || kind == TokenType::Minus {
        unary_is_proper(ts, pos + 1, m);
    } else {
        call_is_proper(ts, pos, m, None);
    }
}

#[verifier::rlimit(80)]
pub proof fn call_is_proper(ts: Seq<TokenView>, pos: nat, m: MacroMap, piped: Option<ExprView>)
    requires
        ready(ts, pos, m),
        proper_macros(m),
        proper_optional(piped),
    ensures
        kept_tree(ts, pos, call(ts, pos, m, piped)),
        proper_tree(call(ts, pos, m, piped)),
    decreases ts.len() - pos, 14nat,
{
    call_keeps(ts, pos, m, piped);
    primary_is_proper(ts, pos, m);
    let head = primary(ts, pos, m);
    if head.carries_on(ts, pos) {
        postfix_is_proper(ts, head.pos, head.macros, head.value(), piped);
    }
}

#[verifier::rlimit(80)]
pub proof fn postfix_is_proper(
    ts: Seq<TokenView>,
    pos: nat,
    m: MacroMap,
    expr: ExprView,
    piped: Option<ExprView>,
)
    requires
        ready(ts, pos, m),
        !(expr is End),
        proper_macros(m),
        proper(expr),
        proper_optional(piped),
    ensures
        kept_node(ts, pos, postfix(ts, pos, m, expr, piped)),
        proper_tree(postfix(ts, pos, m, expr, piped)),
    decreases ts.len() - pos, 13nat,
{
    postfix_keeps(ts, pos, m, expr, piped);
    let kind = kind_at(ts, pos);
    if kind == TokenType::LParen {
        finish_call_is_proper(ts, pos + 1, m, expr, piped);
        let made = finish_call(ts, pos + 1, m, expr, piped);
        if made.carries_on(ts, pos + 1) {
            postfix_is_proper(ts, made.pos, made.macros, made.value(), None);
        }
    } else if kind == TokenType::Dot {
        binary_is_proper(ts, pos + 1, m, Level::Or);
        let member = binary(ts, pos + 1, m, Level::Or);
        if member.carries_on(ts, pos + 1) {
            postfix_is_proper(
                ts,
                member.pos,
                member.macros,
                ExprView::Get {
                    instance: Box::new(expr),
                    value: Box::new(member.value()),
                    token: token_at(ts, pos),
                },
                piped,
            );
        }
    } else if kind == TokenType::RPipe {
        call_is_proper(ts, pos + 1, m, Some(expr));
    } else if kind == TokenType::Question {
        ternary_is_proper(ts, pos + 1, m, expr, token_at(ts, pos));
        let made = ternary(ts, pos + 1, m, expr, token_at(ts, pos));
        if made.carries_on(ts, pos + 1) {
            postfix_is_proper(ts, made.pos, made.macros, made.value(), piped);
        }
    }
}

#[verifier::rlimit(80)]
pub proof fn ternary_is_proper(ts: Seq<TokenView>, pos: nat, m: MacroMap, cond: ExprView, mark: TokenView)
    requires
        ready(ts, pos, m),
        proper_macros(m),
        proper(cond),
    ensures
        kept_tree(ts, pos, ternary(ts, pos, m, cond, mark)),
        proper_tree(ternary(ts, pos, m, cond, mark)),
    decreases ts.len() - pos, 51nat,
{
    ternary_keeps(ts, pos, m, cond, mark);
    expression_is_proper(ts, pos, m);
    let yes = expression(ts, pos, m);
    if yes.carries_on(ts, pos) && kind_at(ts, yes.pos) == TokenType::Colon {
        expression_is_proper(ts, yes.pos + 1, yes.macros);
        let no = expression(ts, yes.pos + 1, yes.macros);
        if no.out is Ok {
            lemma_ternary_node_proper(mark, cond, yes.value(), no.value());
        }
    }
}

#[verifier::rlimit(80)]
pub proof fn finish_call_is_proper(
    ts: Seq<TokenView>,
    pos: nat,
    m: MacroMap,
    callee: ExprView,
    piped: Option<ExprView>,
)
    requires
        ready(ts, pos, m),
        proper_macros(m),
        proper(callee),
        proper_optional(piped),
    ensures
        kept_tree(ts, pos, finish_call(ts, pos, m, callee, piped)),
        proper_tree(finish_call(ts, pos, m, callee, piped)),
    decreases ts.len() - pos, 53nat,
{
    finish_call_keeps(ts, pos, m, callee, piped);
    let first = match piped {
        Some(p) => seq![CallArgView::Positional(p)],
        None => Seq::empty(),
    };
    match piped {
        Some(p) => {
            lemma_proper_args_push(Seq::empty(), CallArgView::Positional(p));
        },
        None => {},
    }
    arguments_is_proper(ts, pos, m, first);
    let args = arguments(ts, pos, m, first);
    if args.carries_on(ts, pos) && kind_at(ts, args.pos) == TokenType::RParen {
        assert(args.pos + 1 < ts.len());
        trailing_pipe_is_proper(ts, args.pos + 1, args.macros, args.value());
        let trailing = trailing_pipe(ts, args.pos + 1, args.macros, args.value());
        if trailing.carries_on(ts, args.pos + 1) {
            callback_pipe_is_proper(ts, trailing.pos, trailing.macros, trailing.value());
            let all = callback_pipe(ts, trailing.pos, trailing.macros, trailing.value());
            assert(kept(ts, trailing.pos, all));
            assert(pos < all.pos);
        } else {
            assert(trailing.out is Err);
        }
    }
}

#[verifier::rlimit(80)]
pub proof fn arguments_is_proper(
    ts: Seq<TokenView>,
    pos: nat,
    m: MacroMap,
    acc: Seq<CallArgView>,
)
    requires
        ready(ts, pos, m),
        proper_macros(m),
        proper_args(acc),
    ensures
        kept(ts, pos, arguments(ts, pos, m, acc)),
        proper_args_step(arguments(ts, pos, m, acc)),
    decreases ts.len() - pos, 52nat,
{
    arguments_keeps(ts, pos, m, acc);
    if kind_at(ts, pos) != TokenType::RParen {
        more_arguments_is_proper(ts, pos, m, acc);
    }
}

#[verifier::rlimit(80)]
pub proof fn more_arguments_is_proper(
    ts: Seq<TokenView>,
    pos: nat,
    m: MacroMap,
    acc: Seq<CallArgView>,
)
    requires
        ready(ts, pos, m),
        proper_macros(m),
        proper_args(acc),
    ensures
        kept(ts, pos, more_arguments(ts, pos, m, acc)),
        proper_args_step(more_arguments(ts, pos, m, acc)),
    decreases ts.len() - pos, 51nat,
{
    more_arguments_keeps(ts, pos, m, acc);
    let spread = kind_at(ts, pos) == TokenType::Ellipsis;
    let start = if spread {
        pos + 1
    } else {
        pos
    };
    expression_is_proper(ts, start, m);
    let arg = expression(ts, start, m);
    if arg.carries_on(ts, start) {
        let one = if spread {
            CallArgView::Unpacking(arg.value())
        } else {
            CallArgView::Positional(arg.value())
        };
        lemma_proper_args_push(acc, one);
        if kind_at(ts, arg.pos) == TokenType::Comma {
            more_arguments_is_proper(ts, arg.pos + 1, arg.macros, acc.push(one));
        }
    }
}

#[verifier::rlimit(80)]
pub proof fn trailing_pipe_is_proper(
    ts: Seq<TokenView>,
    pos: nat,
    m: MacroMap,
    args: Seq<CallArgView>,
)
    requires
        ready(ts, pos, m),
        proper_macros(m),
        proper_args(args),
    ensures
        kept(ts, pos, trailing_pipe(ts, pos, m, args)),
        proper_args_step(trailing_pipe(ts, pos, m, args)),
    decreases ts.len() - pos, 51nat,
{
    trailing_pipe_keeps(ts, pos, m, args);
    if kind_at(ts, pos) == TokenType::LPipe {
        expression_is_proper(ts, pos + 1, m);
        let arg = expression(ts, pos + 1, m);
        if arg.out is Ok {
            lemma_proper_args_push(args, CallArgView::Positional(arg.value()));
        }
    }
}

#[verifier::rlimit(80)]
pub proof fn callback_pipe_is_proper(
    ts: Seq<TokenView>,
    pos: nat,
    m: MacroMap,
    args: Seq<CallArgView>,
)
    requires
        ready(ts, pos, m),
        proper_macros(m),
        proper_args(args),
    ensures
        kept(ts, pos, callback_pipe(ts, pos, m, args)),
        proper_args_step(callback_pipe(ts, pos, m, args)),
    decreases ts.len() - pos, 51nat,
{
    callback_pipe_keeps(ts, pos, m, args);
    if kind_at(ts, pos) == TokenType::LTilde {
        if kind_at(ts, pos + 1) == TokenType::LParen {
            parameters_is_proper(ts, pos + 1, m);
        }
        let sig = if kind_at(ts, pos + 1) == TokenType::LParen {
            parameters(ts, pos + 1, m)
        } else {
            Step::ok(Signature { params: Seq::empty(), rest: None }, pos + 1, m)
        };
        if sig.carries_on(ts, pos + 1) {
            expression_is_proper(ts, sig.pos, sig.macros);
            let body = expression(ts, sig.pos, sig.macros);
            if body.out is Ok {
                let made = ExprView::Func {
                    public: false,
                    name: None,
                    params: sig.value().params,
                    rest: sig.value().rest,
                    body: Box::new(body.value()),
                };
                assert(proper(made));
                lemma_proper_args_push(args, CallArgView::Positional(made));
            }
        }
    }
}

#[verifier::rlimit(80)]
pub proof fn parameters_is_proper(ts: Seq<TokenView>, pos: nat, m: MacroMap)
    requires
        ready(ts, pos, m),
        proper_macros(m),
    ensures
        kept(ts, pos, parameters(ts, pos, m)),
        proper_macros_step(parameters(ts, pos, m)),
{
    parameters_keeps(ts, pos, m);
    if kind_at(ts, pos) == TokenType::LParen && kind_at(ts, pos + 1) != TokenType::RParen {
        parameter_items_is_proper(ts, pos + 1, m, Signature { params: Seq::empty(), rest: None });
    }
}

#[verifier::rlimit(80)]
pub proof fn parameter_items_is_proper(ts: Seq<TokenView>, pos: nat, m: MacroMap, sig: Signature)
    requires
        ready(ts, pos, m),
        proper_macros(m),
    ensures
        kept(ts, pos, parameter_items(ts, pos, m, sig)),
        proper_macros_step(parameter_items(ts, pos, m, sig)),
    decreases ts.len() - pos,
{
    parameter_items_keeps(ts, pos, m, sig);
    if sig.rest is None {
        let kind = kind_at(ts, pos);
        let variadic = kind == TokenType::Id && kind_at(ts, pos + 1) == TokenType::Plus;
        let plain = (kind == TokenType::Id && !variadic) || kind == TokenType::Underscore;
        let grown = Signature {
            params: if plain {
                sig.params.push(token_at(ts, pos))
            } else {
                sig.params
            },
            rest: if variadic {
                Some(token_at(ts, pos))
            } else {
                None
            },
        };
        let next = if variadic {
            pos + 2
        } else if plain {
            pos + 1
        } else {
            pos
        };
        if kind_at(ts, next) == TokenType::Comma {
            parameter_items_is_proper(ts, next + 1, m, grown);
        }
    }
}

#[verifier::rlimit(80)]
pub proof fn primary_is_proper(ts: Seq<TokenView>, pos: nat, m: MacroMap)
    requires
        ready(ts, pos, m),
        proper_macros(m),
    ensures
        kept_tree(ts, pos, primary(ts, pos, m)),
        proper_tree(primary(ts, pos, m)),
    decreases ts.len() - pos, 12nat,
{
    primary_keeps(ts, pos, m);
    let kind = kind_at(ts, pos);
    let token = token_at(ts, pos);
    if kind == TokenType::LParen {
        group_is_proper(ts, pos + 1, m);
    } else if kind == TokenType::LBracket {
        list_literal_is_proper(ts, pos + 1, m, token);
    } else if kind == TokenType::LBrace {
        braces_is_proper(ts, pos + 1, m, token);
    } else if kind == TokenType::MinusGT {
        lambda_is_proper(ts, pos + 1, m);
    } else if kind == TokenType::Func {
        function_is_proper(ts, pos, m, false, Seq::empty());
    } else if kind == TokenType::Public {
        function_is_proper(ts, pos + 1, m, true, Seq::empty());
    } else if kind == TokenType::At {
        decorated_is_proper(ts, pos + 1, m);
    } else if kind == TokenType::Match {
        match_expression_is_proper(ts, pos + 1, m, token);
    } else if kind == TokenType::Try {
        try_expression_is_proper(ts, pos + 1, m, token);
    } else if kind == TokenType::Unsafe {
        wrapped_is_proper(ts, pos + 1, m, token);
    } else if kind == TokenType::Dollar {
        wrapped_is_proper(ts, pos + 1, m, token);
    } else if kind == TokenType::Def {
        define_macro_is_proper(ts, pos + 1, m);
    } else if kind == TokenType::Redef {
        redefine_macro_is_proper(ts, pos + 1, m);
    }
}

#[verifier::rlimit(80)]
pub proof fn group_is_proper(ts: Seq<TokenView>, pos: nat, m: MacroMap)
    requires
        ready(ts, pos, m),
        proper_macros(m),
    ensures
        kept_tree(ts, pos, group(ts, pos, m)),
        proper_tree(group(ts, pos, m)),
    decreases ts.len() - pos, 51nat,
{
    group_keeps(ts, pos, m);
    expression_is_proper(ts, pos, m);
}

#[verifier::rlimit(80)]
pub proof fn list_literal_is_proper(ts: Seq<TokenView>, pos: nat, m: MacroMap, mark: TokenView)
    requires
        ready(ts, pos, m),
        proper_macros(m),
    ensures
        kept_tree(ts, pos, list_literal(ts, pos, m, mark)),
        proper_tree(list_literal(ts, pos, m, mark)),
    decreases ts.len() - pos, 51nat,
{
    list_literal_keeps(ts, pos, m, mark);
    list_items_is_proper(ts, pos, m, Seq::empty());
}

#[verifier::rlimit(80)]
pub proof fn list_items_is_proper(ts: Seq<TokenView>, pos: nat, m: MacroMap, acc: Seq<ExprView>)
    requires
        ready(ts, pos, m),
        proper_macros(m),
        proper_all(acc),
    ensures
        kept(ts, pos, list_items(ts, pos, m, acc)),
        proper_exprs_step(list_items(ts, pos, m, acc)),
    decreases ts.len() - pos, 50nat,
{
    list_items_keeps(ts, pos, m, acc);
    if !(kind_at(ts, pos) == TokenType::RBracket || at_end(ts, pos)) {
        expression_is_proper(ts, pos, m);
        let item = expression(ts, pos, m);
        if item.carries_on(ts, pos) {
            lemma_proper_all_push(acc, item.value());
            if kind_at(ts, item.pos) == TokenType::Comma {
                list_items_is_proper(ts, item.pos + 1, item.macros, acc.push(item.value()));
            }
        }
    }
}

#[verifier::rlimit(80)]
pub proof fn braces_is_proper(ts: Seq<TokenView>, pos: nat, m: MacroMap, mark: TokenView)
    requires
        ready(ts, pos, m),
        proper_macros(m),
    ensures
        kept_tree(ts, pos, braces(ts, pos, m, mark)),
        proper_tree(braces(ts, pos, m, mark)),
    decreases ts.len() - pos, 53nat,
{
    braces_keeps(ts, pos, m, mark);
    let keys = Seq::<TokenView>::empty();
    let values = Seq::<ExprView>::empty();
    assert(identifiers(keys));
    assert(proper_all(values));
    assert(proper(ExprView::ObjectLiteral { token: mark, keys, values }));
    if kind_at(ts, pos) != TokenType::RBrace {
        expression_is_proper(ts, pos, m);
        let first = expression(ts, pos, m);
        if first.carries_on(ts, pos) && !at_end(ts, first.pos) {
            if kind_at(ts, first.pos) == TokenType::Colon {
                object_literal_is_proper(ts, first.pos + 1, first.macros, first.value());
            } else {
                block_is_proper(ts, first.pos, first.macros, first.value());
            }
        }
    }
}

#[verifier::rlimit(80)]
pub proof fn object_literal_is_proper(ts: Seq<TokenView>, pos: nat, m: MacroMap, key: ExprView)
    requires
        ready(ts, pos, m),
        proper_macros(m),
        proper(key),
    ensures
        kept_tree(ts, pos, object_literal(ts, pos, m, key)),
        proper_tree(object_literal(ts, pos, m, key)),
    decreases ts.len() - pos, 52nat,
{
    object_literal_keeps(ts, pos, m, key);
    match key {
        ExprView::Variable { name } => {
            expression_is_proper(ts, pos, m);
            let value = expression(ts, pos, m);
            if value.carries_on(ts, pos) {
                lemma_proper_all_push(Seq::empty(), value.value());
                assert(proper_entries(Entries { keys: seq![name], values: seq![value.value()] }));
                if kind_at(ts, value.pos) == TokenType::Comma {
                    object_entries_is_proper(
                        ts,
                        value.pos + 1,
                        value.macros,
                        Entries { keys: seq![name], values: seq![value.value()] },
                    );
                }
            }
        },
        _ => {},
    }
}

#[verifier::rlimit(80)]
pub proof fn object_entries_is_proper(ts: Seq<TokenView>, pos: nat, m: MacroMap, acc: Entries)
    requires
        ready(ts, pos, m),
        proper_macros(m),
        proper_entries(acc),
    ensures
        kept(ts, pos, object_entries(ts, pos, m, acc)),
        proper_entries_step(object_entries(ts, pos, m, acc)),
    decreases ts.len() - pos, 50nat,
{
    object_entries_keeps(ts, pos, m, acc);
    if !(kind_at(ts, pos) == TokenType::RBrace || at_end(ts, pos)) && kind_at(ts, pos)
        == TokenType::Id && kind_at(ts, pos + 1) == TokenType::Colon {
        expression_is_proper(ts, pos + 2, m);
        let value = expression(ts, pos + 2, m);
        if value.carries_on(ts, pos + 2) {
            lemma_proper_all_push(acc.values, value.value());
            let grown = Entries {
                keys: acc.keys.push(token_at(ts, pos)),
                values: acc.values.push(value.value()),
            };
            assert(proper_entries(grown));
            if kind_at(ts, value.pos) == TokenType::Comma {
                object_entries_is_proper(ts, value.pos + 1, value.macros, grown);
            }
        }
    }
}

#[verifier::rlimit(80)]
pub proof fn block_is_proper(ts: Seq<TokenView>, pos: nat, m: MacroMap, first: ExprView)
    requires
        ready(ts, pos, m),
        proper_macros(m),
        proper(first),
    ensures
        kept(ts, pos, block(ts, pos, m, first)),
        block(ts, pos, m, first).out matches Ok(e) ==> !(e is End) && pos < block(
            ts,
            pos,
            m,
            first,
        ).pos,
        proper_tree(block(ts, pos, m, first)),
    decreases ts.len() - pos, 51nat,
{
    block_keeps(ts, pos, m, first);
    lemma_proper_all_push(Seq::empty(), first);
    block_items_is_proper(ts, pos, m, seq![first]);
}

#[verifier::rlimit(80)]
pub proof fn block_items_is_proper(ts: Seq<TokenView>, pos: nat, m: MacroMap, acc: Seq<ExprView>)
    requires
        ready(ts, pos, m),
        proper_macros(m),
        proper_all(acc),
    ensures
        kept(ts, pos, block_items(ts, pos, m, acc)),
        proper_exprs_step(block_items(ts, pos, m, acc)),
    decreases ts.len() - pos, 50nat,
{
    block_items_keeps(ts, pos, m, acc);
    if !(kind_at(ts, pos) == TokenType::RBrace || at_end(ts, pos)) {
        expression_is_proper(ts, pos, m);
        let item = expression(ts, pos, m);
        if item.moves_on(ts, pos) {
            lemma_proper_all_push(acc, item.value());
            block_items_is_proper(ts, item.pos, item.macros, acc.push(item.value()));
        }
    }
}

#[verifier::rlimit(80)]
pub proof fn lambda_is_proper(ts: Seq<TokenView>, pos: nat, m: MacroMap)
    requires
        ready(ts, pos, m),
        proper_macros(m),
    ensures
        kept_tree(ts, pos, lambda(ts, pos, m)),
        proper_tree(lambda(ts, pos, m)),
    decreases ts.len() - pos, 51nat,
{
    lambda_keeps(ts, pos, m);
    expression_is_proper(ts, pos, m);
}

#[verifier::rlimit(80)]
pub proof fn function_is_proper(
    ts: Seq<TokenView>,
    pos: nat,
    m: MacroMap,
    public: bool,
    decorators: Seq<DecoratorView>,
)
    requires
        ready(ts, pos, m),
        proper_macros(m),
        proper_decorators(decorators),
    ensures
        kept_tree(ts, pos, function(ts, pos, m, public, decorators)),
        proper_tree(function(ts, pos, m, public, decorators)),
    decreases ts.len() - pos, 11nat,
{
    function_keeps(ts, pos, m, public, decorators);
    let marked = !public && kind_at(ts, pos) == TokenType::Public;
    let start = if marked {
        pos + 1
    } else {
        pos
    };
    if kind_at(ts, start) == TokenType::Func {
        let named = kind_at(ts, start + 1) == TokenType::Id;
        let open = if named {
            start + 2
        } else {
            start + 1
        };
        parameters_is_proper(ts, open, m);
        let sig = parameters(ts, open, m);
        if sig.carries_on(ts, open) {
            expression_is_proper(ts, sig.pos, sig.macros);
            let body = expression(ts, sig.pos, sig.macros);
            let name = if named {
                Some(token_at(ts, start + 1))
            } else {
                None
            };
            if body.out is Ok {
                lemma_function_node_proper(
                    public || marked,
                    name,
                    sig.value(),
                    body.value(),
                    decorators,
                    previous_at(ts, body.pos),
                    body.pos,
                    body.macros,
                );
            }
        }
    }
}

#[verifier::rlimit(80)]
pub proof fn decorated_is_proper(ts: Seq<TokenView>, pos: nat, m: MacroMap)
    requires
        ready(ts, pos, m),
        proper_macros(m),
    ensures
        kept_tree(ts, pos, decorated(ts, pos, m)),
        proper_tree(decorated(ts, pos, m)),
    decreases ts.len() - pos, 55nat,
{
    decorated_keeps(ts, pos, m);
    if kind_at(ts, pos) == TokenType::LBracket {
        decorators_is_proper(ts, pos + 1, m, Seq::empty());
        let list = decorators(ts, pos + 1, m, Seq::empty());
        if list.carries_on(ts, pos + 1) && kind_at(ts, list.pos) == TokenType::RBracket {
            function_is_proper(ts, list.pos + 1, list.macros, false, list.value());
        }
    }
}

#[verifier::rlimit(80)]
pub proof fn decorators_is_proper(ts: Seq<TokenView>, pos: nat, m: MacroMap, acc: Seq<DecoratorView>)
    requires
        ready(ts, pos, m),
        proper_macros(m),
        proper_decorators(acc),
    ensures
        kept(ts, pos, decorators(ts, pos, m, acc)),
        proper_decorators_step(decorators(ts, pos, m, acc)),
    decreases ts.len() - pos, 54nat,
{
    decorators_keeps(ts, pos, m, acc);
    if kind_at(ts, pos) != TokenType::RBracket && kind_at(ts, pos) == TokenType::Id {
        let name = token_at(ts, pos);
        let next = pos + 1;
        if kind_at(ts, next) == TokenType::LParen {
            arguments_is_proper(ts, next + 1, m, Seq::empty());
            let args = arguments(ts, next + 1, m, Seq::empty());
            if args.carries_on(ts, next + 1) && kind_at(ts, args.pos) == TokenType::RParen {
                let one = DecoratorView { name, args: args.value() };
                assert(proper_decorators(acc.push(one)));
                if kind_at(ts, args.pos + 1) == TokenType::Comma {
                    decorators_is_proper(ts, args.pos + 2, args.macros, acc.push(one));
                }
            }
        } else {
            let one = DecoratorView { name, args: Seq::empty() };
            assert(proper_decorators(acc.push(one)));
            if kind_at(ts, next) == TokenType::Comma {
                decorators_is_proper(ts, next + 1, m, acc.push(one));
            }
        }
    }
}

#[verifier::rlimit(80)]
pub proof fn match_expression_is_proper(ts: Seq<TokenView>, pos: nat, m: MacroMap, mark: TokenView)
    requires
        ready(ts, pos, m),
        proper_macros(m),
    ensures
        kept_tree(ts, pos, match_expression(ts, pos, m, mark)),
        proper_tree(match_expression(ts, pos, m, mark)),
    decreases ts.len() - pos, 51nat,
{
    match_expression_keeps(ts, pos, m, mark);
    expression_is_proper(ts, pos, m);
    let cond = expression(ts, pos, m);
    if cond.carries_on(ts, pos) && kind_at(ts, cond.pos) == TokenType::LBrace {
        match_branches_is_proper(ts, cond.pos + 1, cond.macros, Seq::empty());
    }
}

#[verifier::rlimit(80)]
pub proof fn match_branches_is_proper(
    ts: Seq<TokenView>,
    pos: nat,
    m: MacroMap,
    acc: Seq<MatchBranchView>,
)
    requires
        ready(ts, pos, m),
        proper_macros(m),
        proper_branches(acc),
    ensures
        kept(ts, pos, match_branches(ts, pos, m, acc)),
        proper_branches_step(match_branches(ts, pos, m, acc)),
    decreases ts.len() - pos, 50nat,
{
    match_branches_keeps(ts, pos, m, acc);
    if kind_at(ts, pos) != TokenType::RBrace {
        expression_is_proper(ts, pos, m);
        let target = expression(ts, pos, m);
        if target.carries_on(ts, pos) && kind_at(ts, target.pos) == TokenType::MinusGT {
            expression_is_proper(ts, target.pos + 1, target.macros);
            let body = expression(ts, target.pos + 1, target.macros);
            if body.carries_on(ts, target.pos + 1) {
                let one = MatchBranchView { target: target.value(), body: body.value() };
                assert(proper_branch(one));
                assert(proper_branches(acc.push(one)));
                if kind_at(ts, body.pos) == TokenType::Comma {
                    match_branches_is_proper(ts, body.pos + 1, body.macros, acc.push(one));
                }
            }
        }
    }
}

#[verifier::rlimit(80)]
pub proof fn try_expression_is_proper(ts: Seq<TokenView>, pos: nat, m: MacroMap, mark: TokenView)
    requires
        ready(ts, pos, m),
        proper_macros(m),
    ensures
        kept_tree(ts, pos, try_expression(ts, pos, m, mark)),
        proper_tree(try_expression(ts, pos, m, mark)),
    decreases ts.len() - pos, 51nat,
{
    try_expression_keeps(ts, pos, m, mark);
    expression_is_proper(ts, pos, m);
    let result = expression(ts, pos, m);
    if result.carries_on(ts, pos) {
        expression_is_proper(ts, result.pos, result.macros);
        let handler = expression(ts, result.pos, result.macros);
        if handler.carries_on(ts, result.pos) {
            if kind_at(ts, handler.pos) == TokenType::Else {
                expression_is_proper(ts, handler.pos + 1, handler.macros);
            }
            let success = if kind_at(ts, handler.pos) == TokenType::Else {
                expression(ts, handler.pos + 1, handler.macros)
            } else {
                Step::ok(ExprView::Null { token: mark }, handler.pos, handler.macros)
            };
            if success.out is Ok {
                lemma_try_node_proper(mark, result.value(), handler.value(), success.value());
            }
        }
    }
}

#[verifier::rlimit(80)]
pub proof fn wrapped_is_proper(ts: Seq<TokenView>, pos: nat, m: MacroMap, mark: TokenView)
    requires
        ready(ts, pos, m),
        proper_macros(m),
    ensures
        kept_tree(ts, pos, unsafe_expression(ts, pos, m, mark)),
        kept_tree(ts, pos, shell_expression(ts, pos, m, mark)),
        proper_tree(unsafe_expression(ts, pos, m, mark)),
        proper_tree(shell_expression(ts, pos, m, mark)),
    decreases ts.len() - pos, 51nat,
{
    wrapped_keeps(ts, pos, m, mark);
    expression_is_proper(ts, pos, m);
}

#[verifier::rlimit(80)]
pub proof fn define_macro_is_proper(ts: Seq<TokenView>, pos: nat, m: MacroMap)
    requires
        ready(ts, pos, m),
        proper_macros(m),
    ensures
        kept_tree(ts, pos, define_macro(ts, pos, m)),
        proper_tree(define_macro(ts, pos, m)),
    decreases ts.len() - pos, 51nat,
{
    define_macro_keeps(ts, pos, m);
    if kind_at(ts, pos) == TokenType::Id {
        expression_is_proper(ts, pos + 1, m);
    }
}

#[verifier::rlimit(80)]
pub proof fn redefine_macro_is_proper(ts: Seq<TokenView>, pos: nat, m: MacroMap)
    requires
        ready(ts, pos, m),
        proper_macros(m),
    ensures
        kept_tree(ts, pos, redefine_macro(ts, pos, m)),
        proper_tree(redefine_macro(ts, pos, m)),
    decreases ts.len() - pos, 51nat,
{
    redefine_macro_keeps(ts, pos, m);
    if kind_at(ts, pos) == TokenType::Id {
        expression_is_proper(ts, pos + 1, m);
    }
}

/// One turn of the top-level loop hands on a proper tree and leaves proper
/// macros.
pub proof fn top_level_is_proper(ts: Seq<TokenView>, pos: nat, m: MacroMap)
    requires
        ready(ts, pos, m),
        proper_macros(m),
    ensures
        proper_macros(top_level(ts, pos, m).macros),
        top_level(ts, pos, m).node matches Some(e) ==> proper(e),
{
    expression_is_proper(ts, pos, m);
}

/// The top-level loop adds proper trees only.
pub proof fn program_is_proper(
    ts: Seq<TokenView>,
    pos: nat,
    m: MacroMap,
    nodes: Seq<ExprView>,
    errors: Seq<ErrorView>,
)
    requires
        ready(ts, pos, m),
        proper_macros(m),
        proper_all(nodes),
    ensures
        proper_all(program(ts, pos, m, nodes, errors).nodes),
        proper_macros(program(ts, pos, m, nodes, errors).macros),
    decreases ts.len() - pos,
{
    if !at_end(ts, pos) {
        top_level_keeps(ts, pos, m);
        top_level_is_proper(ts, pos, m);
        let turn = top_level(ts, pos, m);
        match turn.node {
            Some(e) => {
                lemma_proper_all_push(nodes, e);
            },
            None => {},
        }
        program_is_proper(
            ts,
            turn.pos,
            turn.macros,
            with_optional(nodes, turn.node),
            with_optional(errors, turn.error),
        );
    }
}

/// Every tree that a stream parses to is proper: wherever an object
/// literal stands in it, the literal has as many keys as values and each
/// key is an identifier.
pub proof fn trees_are_proper(ts: Seq<TokenView>)
    requires
        well_formed(ts),
    ensures
        proper_all(parsed(ts).nodes),
{
    program_is_proper(ts, 0, Map::empty(), Seq::empty(), Seq::empty());
}

/// What being proper says of an object literal itself.
pub proof fn proper_object_literal(e: ExprView)
    requires
        proper(e),
        e is ObjectLiteral,
    ensures
        e->keys.len() == e->ObjectLiteral_values.len(),
        identifiers(e->keys),
        proper_all(e->ObjectLiteral_values),
{
}

} // verus!
