//! What holds of the printer and of the parser as wholes.

use vstd::prelude::*;
use crate::ast::{CallArgView, Expr, ExprView, MatchBranchView};
use crate::error::ErrorView;
use crate::grammar::{
    assignment, at_end, binary, binary_tail, call, expression, is_binding, is_compound,
    is_operator, kind_at, level_rank, operand, parameter_items, parameters, postfix, primary,
    program, token_at, top_level, unary, with_optional, Level, MacroMap, Signature,
};
use crate::printer::{
    render, render_arg, render_args, render_branch, render_branches, render_entries, renders, rest_text, token_texts,
};
use crate::text::join;
use crate::token::{TokenType, TokenView};

verus! {

/// A token without its place in the source.
pub open spec fn unplaced(token: TokenView) -> TokenView {
    TokenView { kind: token.kind, lexeme: token.lexeme, line: 0, col: 0 }
}

/// A run of tokens without their places.
pub open spec fn all_unplaced(tokens: Seq<TokenView>) -> Seq<TokenView> {
    Seq::new(tokens.len(), |i: int| unplaced(tokens[i]))
}

/// An optional token without its place.
pub open spec fn optional_unplaced(token: Option<TokenView>) -> Option<TokenView> {
    match token {
        Some(t) => Some(unplaced(t)),
        None => None,
    }
}

/// The shape of a tree: the tree with every token taken out of its place
/// in the source.
pub open spec fn shape(e: ExprView) -> ExprView
    decreases e,
{
    match e {
        ExprView::Binary { left, right, op } => ExprView::Binary {
            left: Box::new(shape(*left)),
            right: Box::new(shape(*right)),
            op: unplaced(op),
        },
        ExprView::Group { expr } => ExprView::Group { expr: Box::new(shape(*expr)) },
        ExprView::Unary { right, op } => ExprView::Unary {
            right: Box::new(shape(*right)),
            op: unplaced(op),
        },
        ExprView::StringLiteral { token, value } => ExprView::StringLiteral {
            token: unplaced(token),
            value,
        },
        ExprView::FloatLiteral { token, value } => ExprView::FloatLiteral {
            token: unplaced(token),
            value,
        },
        ExprView::IntegerLiteral { token, value } => ExprView::IntegerLiteral {
            token: unplaced(token),
            value,
        },
        ExprView::BoolLiteral { token, payload } => ExprView::BoolLiteral {
            token: unplaced(token),
            payload,
        },
        ExprView::AtomLiteral { token, value } => ExprView::AtomLiteral {
            token: unplaced(token),
            value,
        },
        ExprView::Underscore { token } => ExprView::Underscore { token: unplaced(token) },
        ExprView::Null { token } => ExprView::Null { token: unplaced(token) },
        ExprView::ListLiteral { token, values } => ExprView::ListLiteral {
            token: unplaced(token),
            values: shapes(values),
        },
        ExprView::ObjectLiteral { token, keys, values } => ExprView::ObjectLiteral {
            token: unplaced(token),
            keys: all_unplaced(keys),
            values: shapes(values),
        },
        ExprView::Logical { left, right, op } => ExprView::Logical {
            left: Box::new(shape(*left)),
            right: Box::new(shape(*right)),
            op: unplaced(op),
        },
        ExprView::Variable { name } => ExprView::Variable { name: unplaced(name) },
        ExprView::Assign { init, public, mutable, token, left, right } => ExprView::Assign {
            init,
            public,
            mutable,
            token: unplaced(token),
            left: Box::new(shape(*left)),
            right: Box::new(shape(*right)),
        },
        ExprView::Call { callee, args, token } => ExprView::Call {
            callee: Box::new(shape(*callee)),
            args: arg_shapes(args),
            token: unplaced(token),
        },
        ExprView::Get { instance, value, token } => ExprView::Get {
            instance: Box::new(shape(*instance)),
            value: Box::new(shape(*value)),
            token: unplaced(token),
        },
        ExprView::SetMember { instance, member, token, value } => ExprView::SetMember {
            instance: Box::new(shape(*instance)),
            member: Box::new(shape(*member)),
            token: unplaced(token),
            value: Box::new(shape(*value)),
        },
        ExprView::Func { public, name, params, rest, body } => ExprView::Func {
            public,
            name: optional_unplaced(name),
            params: all_unplaced(params),
            rest: optional_unplaced(rest),
            body: Box::new(shape(*body)),
        },
        ExprView::Match { token, condition, branches } => ExprView::Match {
            token: unplaced(token),
            condition: Box::new(shape(*condition)),
            branches: branch_shapes(branches),
        },
        ExprView::Block { token, exprs } => ExprView::Block {
            token: unplaced(token),
            exprs: shapes(exprs),
        },
        ExprView::Unsafe { token, expr } => ExprView::Unsafe {
            token: unplaced(token),
            expr: Box::new(shape(*expr)),
        },
        ExprView::Shell { token, expr } => ExprView::Shell {
            token: unplaced(token),
            expr: Box::new(shape(*expr)),
        },
        ExprView::End => ExprView::End,
    }
}

/// The shapes of a run of trees.
pub open spec fn shapes(items: Seq<ExprView>) -> Seq<ExprView>
    decreases items,
{
    Seq::new(
        items.len(),
        |i: int|
            if 0 <= i < items.len() {
                shape(items[i])
            } else {
                ExprView::End
            },
    )
}

/// The shape of a call argument.
pub open spec fn arg_shape(arg: CallArgView) -> CallArgView
    decreases arg,
{
    match arg {
        CallArgView::Positional(e) => CallArgView::Positional(shape(e)),
        CallArgView::Unpacking(e) => CallArgView::Unpacking(shape(e)),
    }
}

/// The shapes of a run of call arguments.
pub open spec fn arg_shapes(args: Seq<CallArgView>) -> Seq<CallArgView>
    decreases args,
{
    Seq::new(
        args.len(),
        |i: int|
            if 0 <= i < args.len() {
                arg_shape(args[i])
            } else {
                CallArgView::Positional(ExprView::End)
            },
    )
}

/// The shape of a match branch.
pub open spec fn branch_shape(branch: MatchBranchView) -> MatchBranchView
    decreases branch,
{
    MatchBranchView { target: shape(branch.target), body: shape(branch.body) }
}

/// The shapes of a run of match branches.
pub open spec fn branch_shapes(branches: Seq<MatchBranchView>) -> Seq<MatchBranchView>
    decreases branches,
{
    Seq::new(
        branches.len(),
        |i: int|
            if 0 <= i < branches.len() {
                branch_shape(branches[i])
            } else {
                MatchBranchView { target: ExprView::End, body: ExprView::End }
            },
    )
}

proof fn lemma_token_texts_unplaced(tokens: Seq<TokenView>)
    ensures
        token_texts(all_unplaced(tokens)) == token_texts(tokens),
{
    assert(token_texts(all_unplaced(tokens)) =~= token_texts(tokens));
}

pub proof fn lemma_renders_shapes(items: Seq<ExprView>)
    ensures
        renders(shapes(items)) == renders(items),
    decreases items,
{
    assert forall|i: int| 0 <= i < items.len() implies render(shape(items[i])) == render(
        items[i],
    ) by {
        printing_ignores_positions(items[i]);
    }
    assert(renders(shapes(items)) =~= renders(items));
}

proof fn lemma_render_args_shapes(args: Seq<CallArgView>)
    ensures
        render_args(arg_shapes(args)) == render_args(args),
    decreases args,
{
    assert forall|i: int| 0 <= i < args.len() implies render_arg(arg_shape(args[i])) == render_arg(
        args[i],
    ) by {
        match args[i] {
            CallArgView::Positional(e) => {
                printing_ignores_positions(e);
            },
            CallArgView::Unpacking(e) => {
                printing_ignores_positions(e);
            },
        }
    }
    assert(render_args(arg_shapes(args)) =~= render_args(args));
}

proof fn lemma_render_branches_shapes(branches: Seq<MatchBranchView>)
    ensures
        render_branches(branch_shapes(branches)) == render_branches(branches),
    decreases branches,
{
    assert forall|i: int| 0 <= i < branches.len() implies render_branch(
        branch_shape(branches[i]),
    ) == render_branch(branches[i]) by {
        printing_ignores_positions(branches[i].target);
        printing_ignores_positions(branches[i].body);
    }
    assert(render_branches(branch_shapes(branches)) =~= render_branches(branches));
}

proof fn lemma_render_entries_shapes(keys: Seq<TokenView>, values: Seq<ExprView>)
    ensures
        render_entries(all_unplaced(keys), shapes(values)) == render_entries(keys, values),
    decreases values,
{
    assert forall|i: int| 0 <= i < values.len() implies render(shape(values[i])) == render(
        values[i],
    ) by {
        printing_ignores_positions(values[i]);
    }
    assert(render_entries(all_unplaced(keys), shapes(values)) =~= render_entries(keys, values));
}

/// The printed text of a tree depends on its shape alone: where in the
/// source its tokens stood, and so how the source was laid out, leaves no
/// trace in it.
pub proof fn printing_ignores_positions(e: ExprView)
    ensures
        render(shape(e)) == render(e),
    decreases e,
{
    match e {
        ExprView::Binary { left, right, op } => {
            printing_ignores_positions(*left);
            printing_ignores_positions(*right);
        },
        ExprView::Group { expr } => {
            printing_ignores_positions(*expr);
        },
        ExprView::Unary { right, op } => {
            printing_ignores_positions(*right);
        },
        ExprView::ListLiteral { token, values } => {
            lemma_renders_shapes(values);
        },
        ExprView::ObjectLiteral { token, keys, values } => {
            lemma_render_entries_shapes(keys, values);
        },
        ExprView::Logical { left, right, op } => {
            printing_ignores_positions(*left);
            printing_ignores_positions(*right);
        },
        ExprView::Assign { init, public, mutable, token, left, right } => {
            printing_ignores_positions(*left);
            printing_ignores_positions(*right);
        },
        ExprView::Call { callee, args, token } => {
            printing_ignores_positions(*callee);
            lemma_render_args_shapes(args);
        },
        ExprView::Get { instance, value, token } => {
            printing_ignores_positions(*instance);
            printing_ignores_positions(*value);
        },
        ExprView::SetMember { instance, member, token, value } => {
            printing_ignores_positions(*instance);
            printing_ignores_positions(*member);
            printing_ignores_positions(*value);
        },
        ExprView::Func { public, name, params, rest, body } => {
            printing_ignores_positions(*body);
            lemma_token_texts_unplaced(params);
            assert(rest_text(all_unplaced(params), optional_unplaced(rest)) == rest_text(
                params,
                rest,
            ));
        },
        ExprView::Match { token, condition, branches } => {
            printing_ignores_positions(*condition);
            lemma_render_branches_shapes(branches);
        },
        ExprView::Block { token, exprs } => {
            lemma_renders_shapes(exprs);
        },
        ExprView::Unsafe { token, expr } => {
            printing_ignores_positions(*expr);
        },
        ExprView::Shell { token, expr } => {
            printing_ignores_positions(*expr);
        },
        _ => {},
    }
}

/// Two trees of one shape print alike.
pub proof fn same_shape_same_text(a: ExprView, b: ExprView)
    requires
        shape(a) == shape(b),
    ensures
        render(a) == render(b),
{
    printing_ignores_positions(a);
    printing_ignores_positions(b);
}

/// Printing is a function of the tree: two nodes that stand for the same
/// tree have the same text, so printing a node twice gives the same text
/// twice.
pub proof fn same_tree_same_text(a: Expr, b: Expr)
    requires
        a@ == b@,
    ensures
        render(a@) == render(b@),
{
}

/// Whether `head` is the beginning of `whole`.
pub open spec fn begins<T>(whole: Seq<T>, head: Seq<T>) -> bool {
    head.len() <= whole.len() && whole.take(head.len() as int) == head
}

/// What the top-level loop has handed on stays as it is: the nodes and the
/// errors of the forms read so far are the beginning, in their order, of
/// the nodes and the errors of the whole stream.
pub proof fn earlier_forms_come_first(
    ts: Seq<TokenView>,
    pos: nat,
    m: MacroMap,
    nodes: Seq<ExprView>,
    errors: Seq<ErrorView>,
)
    ensures
        begins(program(ts, pos, m, nodes, errors).nodes, nodes),
        begins(program(ts, pos, m, nodes, errors).errors, errors),
    decreases ts.len() - pos,
{
    assert(nodes.take(nodes.len() as int) =~= nodes);
    assert(errors.take(errors.len() as int) =~= errors);
    if !at_end(ts, pos) {
        let turn = top_level(ts, pos, m);
        if pos < turn.pos <= ts.len() {
            let more_nodes = with_optional(nodes, turn.node);
            let more_errors = with_optional(errors, turn.error);
            earlier_forms_come_first(ts, turn.pos, turn.macros, more_nodes, more_errors);
            let all = program(ts, pos, m, nodes, errors);
            assert(all.nodes.take(nodes.len() as int) =~= all.nodes.take(
                more_nodes.len() as int,
            ).take(nodes.len() as int));
            assert(more_nodes.take(nodes.len() as int) =~= nodes);
            assert(all.errors.take(errors.len() as int) =~= all.errors.take(
                more_errors.len() as int,
            ).take(errors.len() as int));
            assert(more_errors.take(errors.len() as int) =~= errors);
        }
    }
}

proof fn lemma_rest_ends_items(ts: Seq<TokenView>, pos: nat, m: MacroMap, sig: Signature)
    ensures
        ({
            let items = parameter_items(ts, pos, m, sig);
            items.out is Ok && items.value().rest is Some ==> {
                &&& pos + 2 <= items.pos
                &&& kind_at(ts, (items.pos - 1) as nat) == TokenType::Plus
                &&& token_at(ts, (items.pos - 2) as nat) == items.value().rest->Some_0
            }
        }),
    decreases ts.len() - pos,
{
    if sig.rest is None {
        let kind = kind_at(ts, pos);
        let variadic = kind == TokenType::Id && kind_at(ts, pos + 1) == TokenType::Plus;
        let plain = (kind == TokenType::Id && !variadic) || kind == TokenType::Underscore;
        let grown = Signature {
            params: if plain {
                sig.params.push(token_at(ts, pos))
            } else {
                sig.params
            },
            rest: if variadic {
                Some(token_at(ts, pos))
            } else {
                None
            },
        };
        let next = if variadic {
            pos + 2
        } else if plain {
            pos + 1
        } else {
            pos
        };
        if kind_at(ts, next) == TokenType::Comma {
            lemma_rest_ends_items(ts, next + 1, m, grown);
        }
    }
}

/// The rest parameter comes last: where a parameter list is recognised
/// and has a rest parameter, that parameter, its `+` and the closing `)`
/// are the last three tokens of the list.
pub proof fn rest_parameter_comes_last(ts: Seq<TokenView>, pos: nat, m: MacroMap)
    ensures
        ({
            let list = parameters(ts, pos, m);
            list.out is Ok && list.value().rest is Some ==> {
                &&& pos + 4 <= list.pos
                &&& token_at(ts, (list.pos - 3) as nat) == list.value().rest->Some_0
                &&& kind_at(ts, (list.pos - 2) as nat) == TokenType::Plus
                &&& kind_at(ts, (list.pos - 1) as nat) == TokenType::RParen
            }
        }),
{
    if kind_at(ts, pos) == TokenType::LParen && kind_at(ts, pos + 1) != TokenType::RParen {
        lemma_rest_ends_items(ts, pos + 1, m, Signature { params: Seq::empty(), rest: None });
    }
}

/// Whether a token of this kind is a binary operator of some level.
pub open spec fn is_binary_operator(kind: TokenType) -> bool {
    is_operator(Level::Factor, kind) || is_operator(Level::Term, kind) || is_operator(
        Level::Comparison,
        kind,
    ) || is_operator(Level::Equality, kind) || is_operator(Level::And, kind) || is_operator(
        Level::Or,
        kind,
    )
}

/// Whether a token of this kind goes on with the expression before it: a
/// call, a member access, a pipe, a conditional, a binary operator, or an
/// assignment of any form.
pub open spec fn continues_expression(kind: TokenType) -> bool {
    kind == TokenType::LParen || kind == TokenType::Dot || kind == TokenType::RPipe || kind
        == TokenType::Question || is_binary_operator(kind) || is_binding(kind) || is_compound(kind)
        || kind == TokenType::DPlus || kind == TokenType::DMinus
}

/// Where no binary operator follows a unary expression, every level of
/// the ladder yields that expression.
pub proof fn lone_operand_passes_through(ts: Seq<TokenView>, pos: nat, m: MacroMap, level: Level)
    requires
        unary(ts, pos, m).out is Ok ==> !is_binary_operator(kind_at(ts, unary(ts, pos, m).pos)),
    ensures
        binary(ts, pos, m, level) == unary(ts, pos, m),
    decreases level_rank(level),
{
    match level {
        Level::Factor => {},
        Level::Term => lone_operand_passes_through(ts, pos, m, Level::Factor),
        Level::Comparison => lone_operand_passes_through(ts, pos, m, Level::Term),
        Level::Equality => lone_operand_passes_through(ts, pos, m, Level::Comparison),
        Level::And => lone_operand_passes_through(ts, pos, m, Level::Equality),
        Level::Or => lone_operand_passes_through(ts, pos, m, Level::And),
    }
    let first = operand(ts, pos, m, level);
    assert(first == unary(ts, pos, m));
    if first.carries_on(ts, pos) {
        assert(binary_tail(ts, first.pos, first.macros, level, first.value()) == first);
    }
}

/// A primary expression that nothing goes on with is the whole expression:
/// where the first token is no prefix operator and the token after the
/// primary expression does not continue it, `expression` yields what
/// `primary` yields.
pub proof fn lone_primary_is_the_expression(ts: Seq<TokenView>, pos: nat, m: MacroMap)
    requires
        kind_at(ts, pos) != TokenType::Bang,
        kind_at(ts, pos) != TokenType::Not,
        kind_at(ts, pos) != TokenType::Minus,
        primary(ts, pos, m).out is Ok ==> !continues_expression(
            kind_at(ts, primary(ts, pos, m).pos),
        ),
    ensures
        unary(ts, pos, m) == primary(ts, pos, m),
        forall|level: Level| #[trigger] binary(ts, pos, m, level) == primary(ts, pos, m),
        assignment(ts, pos, m) == primary(ts, pos, m),
        expression(ts, pos, m) == primary(ts, pos, m),
{
    let head = primary(ts, pos, m);
    if head.carries_on(ts, pos) {
        assert(postfix(ts, head.pos, head.macros, head.value(), None) == head);
    }
    assert(call(ts, pos, m, None) == head);
    assert(unary(ts, pos, m) == head);
    assert forall|level: Level| #[trigger] binary(ts, pos, m, level) == head by {
        lone_operand_passes_through(ts, pos, m, level);
    }
    assert(binary(ts, pos, m, Level::Or) == head);
    assert(assignment(ts, pos, m) == head);
}

/// The top-level loop, one turn at a time: at the end of the stream it
/// hands back what it has, and before the end it takes one form and goes
/// on from where that form stopped.
pub proof fn program_turn_by_turn(
    ts: Seq<TokenView>,
    pos: nat,
    m: MacroMap,
    nodes: Seq<ExprView>,
    errors: Seq<ErrorView>,
)
    ensures
        at_end(ts, pos) ==> program(ts, pos, m, nodes, errors).nodes == nodes && program(
            ts,
            pos,
            m,
            nodes,
            errors,
        ).errors == errors,
        !at_end(ts, pos) && pos < top_level(ts, pos, m).pos <= ts.len() ==> program(
            ts,
            pos,
            m,
            nodes,
            errors,
        ) == program(
            ts,
            top_level(ts, pos, m).pos,
            top_level(ts, pos, m).macros,
            with_optional(nodes, top_level(ts, pos, m).node),
            with_optional(errors, top_level(ts, pos, m).error),
        ),
{
}

/// The texts of the empty forms: a list without elements, an object
/// without keys, a block without expressions, a call without arguments and
/// a match without branches.
pub proof fn empty_forms_have_bare_texts(
    token: TokenView,
    values: Seq<ExprView>,
    callee: ExprView,
    condition: ExprView,
)
    ensures
        render(ExprView::ListLiteral { token, values: Seq::empty() }) == "(list)"@,
        render(ExprView::ObjectLiteral { token, keys: Seq::empty(), values }) == "(object)"@,
        render(ExprView::Block { token, exprs: Seq::empty() }) == "(block)"@,
        render(ExprView::Call { callee: Box::new(callee), args: Seq::empty(), token }) == "("@
            + render(callee) + ")"@,
        render(ExprView::Match { token, condition: Box::new(condition), branches: Seq::empty() })
            == "(match "@ + render(condition) + ")"@,
{
    let none = Seq::<ExprView>::empty();
    assert(renders(none) =~= Seq::<Seq<char>>::empty());
    assert(join(renders(none), " "@).len() == 0);
}

/// Whether the token `token` stands in the stream `ts` at a position from
/// `lo` on and before `hi`.
pub open spec fn stands_between(ts: Seq<TokenView>, token: TokenView, lo: int, hi: int) -> bool {
    exists|q: int| lo <= q < hi && 0 <= q < ts.len() && #[trigger] ts[q] == token
}

/// Whether each token of `tokens` stands in the stream `ts` at a position
/// from `lo` on and before `hi`.
pub open spec fn stand_between(ts: Seq<TokenView>, tokens: Seq<TokenView>, lo: int, hi: int) -> bool {
    forall|i: int| 0 <= i < tokens.len() ==> #[trigger] stands_between(ts, tokens[i], lo, hi)
}

/// Whether no token stands twice in the stream, as is the case where each
/// token carries its own place in the source.
pub open spec fn distinct_tokens(ts: Seq<TokenView>) -> bool {
    forall|i: int, j: int| 0 <= i < j < ts.len() ==> #[trigger] ts[i] != #[trigger] ts[j]
}

proof fn lemma_stands_wider(ts: Seq<TokenView>, token: TokenView, lo: int, hi: int, wider: int)
    requires
        stands_between(ts, token, lo, hi),
        hi <= wider,
    ensures
        stands_between(ts, token, lo, wider),
{
    let q = choose|q: int| lo <= q < hi && 0 <= q < ts.len() && #[trigger] ts[q] == token;
    assert(lo <= q < wider && 0 <= q < ts.len() && ts[q] == token);
}

proof fn lemma_stand_between_wider(
    ts: Seq<TokenView>,
    tokens: Seq<TokenView>,
    lo: int,
    hi: int,
    wider: int,
)
    requires
        stand_between(ts, tokens, lo, hi),
        hi <= wider,
    ensures
        stand_between(ts, tokens, lo, wider),
{
    assert forall|i: int| 0 <= i < tokens.len() implies #[trigger] stands_between(
        ts,
        tokens[i],
        lo,
        wider,
    ) by {
        assert(stands_between(ts, tokens[i], lo, hi));
        lemma_stands_wider(ts, tokens[i], lo, hi, wider);
    }
}

proof fn lemma_stand_between_push(ts: Seq<TokenView>, tokens: Seq<TokenView>, lo: int, at: int)
    requires
        stand_between(ts, tokens, lo, at),
        0 <= lo <= at < ts.len(),
    ensures
        stand_between(ts, tokens.push(ts[at]), lo, at + 1),
{
    let grown = tokens.push(ts[at]);
    assert forall|i: int| 0 <= i < grown.len() implies #[trigger] stands_between(
        ts,
        grown[i],
        lo,
        at + 1,
    ) by {
        if i < tokens.len() {
            assert(stands_between(ts, tokens[i], lo, at));
            lemma_stands_wider(ts, tokens[i], lo, at, at + 1);
            assert(grown[i] == tokens[i]);
        } else {
            assert(lo <= at < at + 1 && 0 <= at < ts.len() && ts[at] == grown[i]);
        }
    }
}

proof fn lemma_parameters_stand_before(
    ts: Seq<TokenView>,
    pos: nat,
    m: MacroMap,
    sig: Signature,
    lo: int,
)
    requires
        0 <= lo <= pos,
        stand_between(ts, sig.params, lo, pos as int),
    ensures
        ({
            let items = parameter_items(ts, pos, m, sig);
            items.out is Ok ==> stand_between(
                ts,
                items.value().params,
                lo,
                if items.value().rest is Some {
                    items.pos - 2
                } else {
                    items.pos as int
                },
            )
        }),
    decreases ts.len() - pos,
{
    if sig.rest is None {
        let kind = kind_at(ts, pos);
        let variadic = kind == TokenType::Id && kind_at(ts, pos + 1) == TokenType::Plus;
        let plain = (kind == TokenType::Id && !variadic) || kind == TokenType::Underscore;
        let grown = Signature {
            params: if plain {
                sig.params.push(token_at(ts, pos))
            } else {
                sig.params
            },
            rest: if variadic {
                Some(token_at(ts, pos))
            } else {
                None
            },
        };
        let next = if variadic {
            pos + 2
        } else if plain {
            pos + 1
        } else {
            pos
        };
        if plain {
            lemma_stand_between_push(ts, sig.params, lo, pos as int);
        }
        if kind_at(ts, next) == TokenType::Comma {
            if !variadic {
                lemma_stand_between_wider(ts, grown.params, lo, next as int, next as int + 1);
                lemma_parameters_stand_before(ts, next + 1, m, grown, lo);
            }
        }
    }
}

/// The parameters stand where they were read: each plain parameter of a
/// recognised list is a token of the stream between the `(` and the `)`,
/// and where the list has a rest parameter, each plain parameter stands
/// before it.
pub proof fn parameters_stand_before_the_rest(ts: Seq<TokenView>, pos: nat, m: MacroMap)
    ensures
        ({
            let list = parameters(ts, pos, m);
            list.out is Ok ==> stand_between(
                ts,
                list.value().params,
                pos as int + 1,
                if list.value().rest is Some {
                    list.pos - 3
                } else {
                    list.pos - 1
                },
            )
        }),
{
    let none = Signature { params: Seq::empty(), rest: None };
    if kind_at(ts, pos) == TokenType::LParen && kind_at(ts, pos + 1) != TokenType::RParen {
        lemma_parameters_stand_before(ts, pos + 1, m, none, pos as int + 1);
    }
}

/// The rest parameter is none of the plain parameters, in a stream in
/// which no token stands twice.
pub proof fn rest_is_no_parameter(ts: Seq<TokenView>, pos: nat, m: MacroMap)
    requires
        distinct_tokens(ts),
    ensures
        ({
            let list = parameters(ts, pos, m);
            list.out is Ok && list.value().rest is Some ==> !list.value().params.contains(
                list.value().rest->Some_0,
            )
        }),
{
    let list = parameters(ts, pos, m);
    if list.out is Ok && list.value().rest is Some {
        rest_parameter_comes_last(ts, pos, m);
        parameters_stand_before_the_rest(ts, pos, m);
        let rest = list.value().rest->Some_0;
        let params = list.value().params;
        if params.contains(rest) {
            let i = choose|i: int| 0 <= i < params.len() && params[i] == rest;
            assert(stands_between(ts, params[i], pos as int + 1, list.pos - 3));
            let q = choose|q: int|
                pos + 1 <= q < list.pos - 3 && 0 <= q < ts.len() && #[trigger] ts[q] == params[i];
            assert(ts[q] == ts[list.pos - 3]);
            assert(false);
        }
    }
}

} // verus!
