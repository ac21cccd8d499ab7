//! The grammar, as mathematics: what each rule makes of a run of tokens.
//!
//! A rule looks at the tokens `ts` from a cursor position on, with the macros
//! defined so far, and yields a [`Step`]: a tree or an error, the position it
//! stopped at, and the macros defined by then. The rules are meant for
//! streams that end in an end-of-file token; on such a stream no rule ever
//! moves the cursor backwards or past the last token, as
//! [`crate::soundness`] proves. Where a rule goes on after another, it says
//! so by [`Step::carries_on`], which makes the recursion well-founded on any
//! input.

use vstd::prelude::*;
use crate::ast::{CallArgView, ExprView, MatchBranchView};
use crate::error::{message_text, ErrorKind, ErrorView};
use crate::text::{int_value, is_float_text};
use crate::token::{TokenType, TokenView};

verus! {

/// The macros defined so far: each name with the tree it stands for.
pub type MacroMap = Map<Seq<char>, ExprView>;

/// Whether no macro stands for the end marker.
pub open spec fn end_free(m: MacroMap) -> bool {
    forall|name: Seq<char>| m.dom().contains(name) ==> !(#[trigger] m[name] is End)
}

/// What a rule yields.
pub struct Step<T> {
    /// What was recognised, or why nothing was.
    pub out: Result<T, ErrorKind>,
    /// The position of the first token that the rule did not consume.
    pub pos: nat,
    /// The macros defined once the rule is through.
    pub macros: MacroMap,
}

impl<T> Step<T> {
    /// The step that recognised `value`.
    pub open spec fn ok(value: T, pos: nat, macros: MacroMap) -> Step<T> {
        Step { out: Ok(value), pos, macros }
    }

    /// The step that failed with `kind`.
    pub open spec fn fail(kind: ErrorKind, pos: nat, macros: MacroMap) -> Step<T> {
        Step { out: Err(kind), pos, macros }
    }

    /// What was recognised.
    pub open spec fn value(self) -> T {
        self.out->Ok_0
    }

    /// The same failure, as the step of another rule.
    pub open spec fn stop<U>(self) -> Step<U> {
        Step { out: Err(self.out->Err_0), pos: self.pos, macros: self.macros }
    }

    /// The step succeeded, and the cursor stands between `from` and the end
    /// of the stream.
    pub open spec fn carries_on(self, ts: Seq<TokenView>, from: nat) -> bool {
        self.out is Ok && from <= self.pos <= ts.len()
    }

    /// The step succeeded, and the cursor stands after `from`.
    pub open spec fn moves_on(self, ts: Seq<TokenView>, from: nat) -> bool {
        self.out is Ok && from < self.pos <= ts.len()
    }
}

/// A stream of tokens as the parser wants it: it ends in an end-of-file
/// token.
pub open spec fn well_formed(ts: Seq<TokenView>) -> bool {
    ts.len() > 0 && ts.last().kind == TokenType::EOF
}

/// The kind of the token at `pos`; past the stream, end-of-file.
pub open spec fn kind_at(ts: Seq<TokenView>, pos: nat) -> TokenType {
    if pos < ts.len() {
        ts[pos as int].kind
    } else {
        TokenType::EOF
    }
}

/// Whether the cursor stands at the end of the stream.
pub open spec fn at_end(ts: Seq<TokenView>, pos: nat) -> bool {
    kind_at(ts, pos) == TokenType::EOF
}

/// The token at `pos`.
pub open spec fn token_at(ts: Seq<TokenView>, pos: nat) -> TokenView {
    ts[pos as int]
}

/// The token consumed last before `pos`; at the start, the first token.
pub open spec fn previous_at(ts: Seq<TokenView>, pos: nat) -> TokenView {
    if pos == 0 {
        ts[0]
    } else {
        ts[pos - 1]
    }
}

/// The position after one advance: the next one, unless at the end.
pub open spec fn after(ts: Seq<TokenView>, pos: nat) -> nat {
    if at_end(ts, pos) {
        pos
    } else {
        pos + 1
    }
}

/// The levels of binary operators, from the tightest to the loosest.
#[derive(Clone, Copy, Debug, PartialEq, Eq, Structural)]
pub enum Level {
    /// `*`, `/`, `%`
    Factor,
    /// `+`, `-`
    Term,
    /// `<`, `<=`, `>`, `>=`
    Comparison,
    /// `==`, `!=`
    Equality,
    /// `&&`, `and`
    And,
    /// `||`, `or`
    Or,
}

/// The place of a level in the ladder: 0 binds tightest.
pub open spec fn level_rank(level: Level) -> nat {
    match level {
        Level::Factor => 0,
        Level::Term => 1,
        Level::Comparison => 2,
        Level::Equality => 3,
        Level::And => 4,
        Level::Or => 5,
    }
}

/// Whether a token of kind `kind` is an operator of `level`.
pub open spec fn is_operator(level: Level, kind: TokenType) -> bool {
    match level {
        Level::Factor => kind == TokenType::Div || kind == TokenType::Mul || kind == TokenType::Mod,
        Level::Term => kind == TokenType::Minus || kind == TokenType::Plus,
        Level::Comparison => kind == TokenType::GT || kind == TokenType::GTEq || kind
            == TokenType::LT || kind == TokenType::LTEq,
        Level::Equality => kind == TokenType::BangEq || kind == TokenType::DEq,
        Level::And => kind == TokenType::DAmp || kind == TokenType::And,
        Level::Or => kind == TokenType::DPipe || kind == TokenType::Or,
    }
}

/// The node for `left op right` at `level`.
pub open spec fn combine(level: Level, left: ExprView, right: ExprView, op: TokenView) -> ExprView {
    if level == Level::And || level == Level::Or {
        ExprView::Logical { left: Box::new(left), right: Box::new(right), op }
    } else {
        ExprView::Binary { left: Box::new(left), right: Box::new(right), op }
    }
}

/// The parameters of a function: the plain ones, and the rest parameter.
pub struct Signature {
    pub params: Seq<TokenView>,
    pub rest: Option<TokenView>,
}

/// The entries of an object literal: `keys[i]` names `values[i]`.
pub struct Entries {
    pub keys: Seq<TokenView>,
    pub values: Seq<ExprView>,
}

/// One decorator: the token that names it, and its own arguments.
pub struct DecoratorView {
    pub name: TokenView,
    pub args: Seq<CallArgView>,
}

/// `=`, `:=`, `|=` or `$=`.
pub open spec fn is_binding(kind: TokenType) -> bool {
    kind == TokenType::Equal || kind == TokenType::ColonEq || kind == TokenType::PipeEq || kind
        == TokenType::DollarEq
}

/// `+=`, `-=`, `*=`, `/=` or `%=`.
pub open spec fn is_compound(kind: TokenType) -> bool {
    kind == TokenType::PlusEq || kind == TokenType::MinusEq || kind == TokenType::MulEq || kind
        == TokenType::DivEq || kind == TokenType::ModEq
}

/// What may stand in a destructuring pattern: a variable, a member access
/// or `_`.
pub open spec fn is_target(e: ExprView) -> bool {
    e is Variable || e is Get || e is Underscore
}

/// Whether every tree of `items` may stand in a destructuring pattern.
pub open spec fn all_targets(items: Seq<ExprView>) -> bool {
    forall|i: int| 0 <= i < items.len() ==> is_target(#[trigger] items[i])
}

/// The token that stands for the member of an access whose `.` is `dot`:
/// the member's name where the member is a bare name, else the `.`.
pub open spec fn member_token(member: ExprView, dot: TokenView) -> TokenView {
    match member {
        ExprView::Variable { name } => name,
        _ => dot,
    }
}

/// The node for `left <binding operator> right`, the operator being of kind
/// `kind`: `:=` binds anew, `|=` binds anew and publicly, `$=` assigns
/// mutably, `=` assigns. A pattern on the left must hold targets only. A
/// member access on the left becomes the assignment of `right` to that
/// member of that instance, whatever the member is.
pub open spec fn bind(left: ExprView, right: ExprView, kind: TokenType, pos: nat, m: MacroMap) -> Step<
    ExprView,
> {
    let init = kind == TokenType::ColonEq || kind == TokenType::PipeEq;
    let public = kind == TokenType::PipeEq;
    let mutable = kind == TokenType::DollarEq;
    if right is Assign {
        Step::fail(ErrorKind::AssignmentAsValue, pos, m)
    } else {
        match left {
            ExprView::ObjectLiteral { token, keys, values } => if all_targets(values) {
                Step::ok(
                    ExprView::Assign {
                        init,
                        public,
                        mutable,
                        token,
                        left: Box::new(left),
                        right: Box::new(right),
                    },
                    pos,
                    m,
                )
            } else {
                Step::fail(ErrorKind::InvalidObjectPattern, pos, m)
            },
            ExprView::ListLiteral { token, values } => if all_targets(values) {
                Step::ok(
                    ExprView::Assign {
                        init,
                        public,
                        mutable,
                        token,
                        left: Box::new(left),
                        right: Box::new(right),
                    },
                    pos,
                    m,
                )
            } else {
                Step::fail(ErrorKind::InvalidListPattern, pos, m)
            },
            ExprView::Variable { name } => Step::ok(
                ExprView::Assign {
                    init,
                    public,
                    mutable,
                    token: name,
                    left: Box::new(left),
                    right: Box::new(right),
                },
                pos,
                m,
            ),
            ExprView::Get { instance, value, token } => Step::ok(
                ExprView::SetMember {
                    instance,
                    member: value,
                    token: member_token(*value, token),
                    value: Box::new(right),
                },
                pos,
                m,
            ),
            _ => Step::fail(ErrorKind::InvalidAssignmentTarget, pos, m),
        }
    }
}

/// The operator that a compound assignment applies: `+` for `+=`, `-` for
/// `-=`, `*` for `*=`, `/` for `/=`, `%` for `%=`. Any other kind stands
/// for itself.
pub open spec fn plain_operator(kind: TokenType) -> TokenType {
    match kind {
        TokenType::PlusEq => TokenType::Plus,
        TokenType::MinusEq => TokenType::Minus,
        TokenType::MulEq => TokenType::Mul,
        TokenType::DivEq => TokenType::Div,
        TokenType::ModEq => TokenType::Mod,
        _ => kind,
    }
}

/// The node for `left op= right`: `left = (left op right)`, for a variable
/// on the left. The operator of the operation is the compound token with
/// the kind of the plain operator, so it keeps the place of the `op=`.
pub open spec fn compound(left: ExprView, right: ExprView, op: TokenView, pos: nat, m: MacroMap) -> Step<
    ExprView,
> {
    match left {
        ExprView::Variable { name } => Step::ok(
            ExprView::Assign {
                init: false,
                public: false,
                mutable: false,
                token: name,
                left: Box::new(left),
                right: Box::new(
                    ExprView::Binary {
                        left: Box::new(left),
                        right: Box::new(right),
                        op: op.with_kind(plain_operator(op.kind)),
                    },
                ),
            },
            pos,
            m,
        ),
        _ => Step::fail(ErrorKind::ExpectedVariable, pos, m),
    }
}

/// The node for `left++` or `left--`: `left = left + 1` or `left = left - 1`,
/// for a variable on the left. The operator and the literal `1` carry the
/// place of the `++` or `--`.
pub open spec fn increment(left: ExprView, op: TokenView, pos: nat, m: MacroMap) -> Step<ExprView> {
    let sign = op.with_kind(
        if op.kind == TokenType::DPlus {
            TokenType::Plus
        } else {
            TokenType::Minus
        },
    );
    match left {
        ExprView::Variable { name } => Step::ok(
            ExprView::Assign {
                init: false,
                public: false,
                mutable: false,
                token: name,
                left: Box::new(left),
                right: Box::new(
                    ExprView::Binary {
                        left: Box::new(left),
                        right: Box::new(ExprView::IntegerLiteral { token: sign, value: 1 }),
                        op: sign,
                    },
                ),
            },
            pos,
            m,
        ),
        _ => Step::fail(ErrorKind::ExpectedVariable, pos, m),
    }
}

/// A function wrapped in its decorators: the first decorator wraps the
/// function, each next one wraps the result, and each takes what it wraps
/// as its first argument, before its own.
pub open spec fn decorate(decorators: Seq<DecoratorView>, inner: ExprView, mark: TokenView) -> ExprView
    decreases decorators.len(),
{
    if decorators.len() == 0 {
        inner
    } else {
        ExprView::Call {
            callee: Box::new(ExprView::Variable { name: decorators.last().name }),
            args: seq![CallArgView::Positional(decorate(decorators.drop_last(), inner, mark))]
                + decorators.last().args,
            token: mark,
        }
    }
}

/// The node for a function once its parts are read. Without decorators it
/// is the function itself. With decorators it is the binding of the
/// function's name to the decorated lambda, and a name is required.
pub open spec fn function_node(
    public: bool,
    name: Option<TokenView>,
    sig: Signature,
    body: ExprView,
    decorators: Seq<DecoratorView>,
    mark: TokenView,
    pos: nat,
    m: MacroMap,
) -> Step<ExprView> {
    if decorators.len() == 0 {
        Step::ok(
            ExprView::Func { public, name, params: sig.params, rest: sig.rest, body: Box::new(body) },
            pos,
            m,
        )
    } else {
        match name {
            Some(n) => Step::ok(
                ExprView::Assign {
                    init: true,
                    public,
                    mutable: false,
                    token: n,
                    left: Box::new(ExprView::Variable { name: n }),
                    right: Box::new(
                        decorate(
                            decorators,
                            ExprView::Func {
                                public: false,
                                name: None,
                                params: sig.params,
                                rest: sig.rest,
                                body: Box::new(body),
                            },
                            mark,
                        ),
                    ),
                },
                pos,
                m,
            ),
            None => Step::fail(ErrorKind::ExpectedFunctionName, pos, m),
        }
    }
}

/// The node for `cond ? yes : no`: a match on `cond` with the branches
/// `true -> yes` and `_ -> no`.
pub open spec fn ternary_node(mark: TokenView, cond: ExprView, yes: ExprView, no: ExprView) -> ExprView {
    ExprView::Match {
        token: mark,
        condition: Box::new(cond),
        branches: seq![
            MatchBranchView { target: ExprView::BoolLiteral { token: mark, payload: true }, body: yes },
            MatchBranchView { target: ExprView::Underscore { token: mark }, body: no },
        ],
    }
}

/// The node for `try result handler else success`: a match on
/// `error?(result)` with the branches `true -> handler` and
/// `false -> success`.
pub open spec fn try_node(mark: TokenView, result: ExprView, handler: ExprView, success: ExprView) -> ExprView {
    ExprView::Match {
        token: mark,
        condition: Box::new(
            ExprView::Call {
                callee: Box::new(
                    ExprView::Variable {
                        name: TokenView {
                            kind: TokenType::Id,
                            lexeme: "error?"@,
                            line: mark.line,
                            col: mark.col,
                        },
                    },
                ),
                args: seq![CallArgView::Positional(result)],
                token: mark,
            },
        ),
        branches: seq![
            MatchBranchView { target: ExprView::BoolLiteral { token: mark, payload: true }, body: handler },
            MatchBranchView {
                target: ExprView::BoolLiteral { token: mark, payload: false },
                body: success,
            },
        ],
    }
}

/// An expression.
pub open spec fn expression(ts: Seq<TokenView>, pos: nat, m: MacroMap) -> Step<ExprView>
    decreases ts.len() - pos, 40nat,
{
    assignment(ts, pos, m)
}

/// An assignment, or what stands below it: a binding (`=`, `:=`, `|=`, `$=`)
/// whose right-hand side is again an assignment rule, a compound assignment
/// (`+=` and the like), an increment (`++`, `--`), or an `or` expression.
pub open spec fn assignment(ts: Seq<TokenView>, pos: nat, m: MacroMap) -> Step<ExprView>
    decreases ts.len() - pos, 39nat,
{
    let target = binary(ts, pos, m, Level::Or);
    if !target.carries_on(ts, pos) {
        target
    } else {
        let kind = kind_at(ts, target.pos);
        if is_binding(kind) {
            let value = assignment(ts, target.pos + 1, target.macros);
            match value.out {
                Ok(right) => bind(target.value(), right, kind, value.pos, value.macros),
                Err(_) => value,
            }
        } else if is_compound(kind) {
            let value = assignment(ts, target.pos + 1, target.macros);
            match value.out {
                Ok(right) => compound(
                    target.value(),
                    right,
                    token_at(ts, target.pos),
                    value.pos,
                    value.macros,
                ),
                Err(_) => value,
            }
        } else if kind == TokenType::DPlus || kind == TokenType::DMinus {
            increment(target.value(), token_at(ts, target.pos), target.pos + 1, target.macros)
        } else {
            target
        }
    }
}

/// An operand of `level`: an expression of the next tighter level, or a
/// unary expression below the tightest.
pub open spec fn operand(ts: Seq<TokenView>, pos: nat, m: MacroMap, level: Level) -> Step<ExprView>
    decreases ts.len() - pos, 21 + 2 * level_rank(level),
{
    match level {
        Level::Factor => unary(ts, pos, m),
        Level::Term => binary(ts, pos, m, Level::Factor),
        Level::Comparison => binary(ts, pos, m, Level::Term),
        Level::Equality => binary(ts, pos, m, Level::Comparison),
        Level::And => binary(ts, pos, m, Level::Equality),
        Level::Or => binary(ts, pos, m, Level::And),
    }
}

/// A chain of operands of `level` joined by its operators, grouped to the
/// left.
pub open spec fn binary(ts: Seq<TokenView>, pos: nat, m: MacroMap, level: Level) -> Step<ExprView>
    decreases ts.len() - pos, 22 + 2 * level_rank(level),
{
    let first = operand(ts, pos, m, level);
    if first.carries_on(ts, pos) {
        binary_tail(ts, first.pos, first.macros, level, first.value())
    } else {
        first
    }
}

/// The rest of a chain at `level` after `left`: as long as an operator of
/// the level follows, it and the next operand are folded into `left`.
pub open spec fn binary_tail(
    ts: Seq<TokenView>,
    pos: nat,
    m: MacroMap,
    level: Level,
    left: ExprView,
) -> Step<ExprView>
    decreases ts.len() - pos, 20nat,
{
    if is_operator(level, kind_at(ts, pos)) {
        let right = operand(ts, pos + 1, m, level);
        if right.carries_on(ts, pos + 1) {
            binary_tail(
                ts,
                right.pos,
                right.macros,
                level,
                combine(level, left, right.value(), token_at(ts, pos)),
            )
        } else {
            right
        }
    } else {
        Step::ok(left, pos, m)
    }
}

/// A prefix operation (`!`, `not`, `-`) on a unary expression, or a call
/// expression.
pub open spec fn unary(ts: Seq<TokenView>, pos: nat, m: MacroMap) -> Step<ExprView>
    decreases ts.len() - pos, 15nat,
{
    let kind = kind_at(ts, pos);
    if kind == TokenType::Bang || kind == TokenType::Not || kind == TokenType::Minus {
        let right = unary(ts, pos + 1, m);
        match right.out {
            Ok(e) => Step::ok(
                ExprView::Unary { right: Box::new(e), op: token_at(ts, pos) },
                right.pos,
                right.macros,
            ),
            Err(_) => right,
        }
    } else {
        call(ts, pos, m, None)
    }
}

/// A primary expression and what is applied to it. `piped` is the value
/// that a forward pipe hands to the first call of this chain.
pub open spec fn call(ts: Seq<TokenView>, pos: nat, m: MacroMap, piped: Option<ExprView>) -> Step<
    ExprView,
>
    decreases ts.len() - pos, 14nat,
{
    let head = primary(ts, pos, m);
    if head.carries_on(ts, pos) {
        postfix(ts, head.pos, head.macros, head.value(), piped)
    } else {
        head
    }
}

/// What is applied to `expr`, from left to right: a call `(...)`, a member
/// access `.`, whose member is an `or` expression, a forward pipe `|>`,
/// which hands `expr` to the call chain that follows and ends this one, or
/// a conditional `? :`. `piped` goes to the first call and to no later
/// one.
pub open spec fn postfix(
    ts: Seq<TokenView>,
    pos: nat,
    m: MacroMap,
    expr: ExprView,
    piped: Option<ExprView>,
) -> Step<ExprView>
    decreases ts.len() - pos, 13nat,
{
    let kind = kind_at(ts, pos);
    if kind == TokenType::LParen {
        let made = finish_call(ts, pos + 1, m, expr, piped);
        if made.carries_on(ts, pos + 1) {
            postfix(ts, made.pos, made.macros, made.value(), None)
        } else {
            made
        }
    } else if kind == TokenType::Dot {
        let member = binary(ts, pos + 1, m, Level::Or);
        if member.carries_on(ts, pos + 1) {
            postfix(
                ts,
                member.pos,
                member.macros,
                ExprView::Get {
                    instance: Box::new(expr),
                    value: Box::new(member.value()),
                    token: token_at(ts, pos),
                },
                piped,
            )
        } else {
            member
        }
    } else if kind == TokenType::RPipe {
        call(ts, pos + 1, m, Some(expr))
    } else if kind == TokenType::Question {
        let made = ternary(ts, pos + 1, m, expr, token_at(ts, pos));
        if made.carries_on(ts, pos + 1) {
            postfix(ts, made.pos, made.macros, made.value(), piped)
        } else {
            made
        }
    } else {
        Step::ok(expr, pos, m)
    }
}

/// The two arms of a conditional after `?`: `yes : no`.
pub open spec fn ternary(
    ts: Seq<TokenView>,
    pos: nat,
    m: MacroMap,
    cond: ExprView,
    mark: TokenView,
) -> Step<ExprView>
    decreases ts.len() - pos, 51nat,
{
    let yes = expression(ts, pos, m);
    if !yes.carries_on(ts, pos) {
        yes
    } else if kind_at(ts, yes.pos) != TokenType::Colon {
        Step::fail(ErrorKind::ExpectedColon, yes.pos, yes.macros)
    } else {
        let no = expression(ts, yes.pos + 1, yes.macros);
        match no.out {
            Ok(e) => Step::ok(ternary_node(mark, cond, yes.value(), e), no.pos, no.macros),
            Err(_) => no,
        }
    }
}

/// A call of `callee` after its `(`: the piped value if there is one, the
/// arguments up to `)`, then what a trailing pipe `<|` and a callback pipe
/// `<~` add.
pub open spec fn finish_call(
    ts: Seq<TokenView>,
    pos: nat,
    m: MacroMap,
    callee: ExprView,
    piped: Option<ExprView>,
) -> Step<ExprView>
    decreases ts.len() - pos, 53nat,
{
    let first = match piped {
        Some(p) => seq![CallArgView::Positional(p)],
        None => Seq::empty(),
    };
    let args = arguments(ts, pos, m, first);
    if !args.carries_on(ts, pos) {
        args.stop()
    } else if kind_at(ts, args.pos) != TokenType::RParen {
        Step::fail(ErrorKind::ExpectedRParen, args.pos, args.macros)
    } else {
        let trailing = trailing_pipe(ts, args.pos + 1, args.macros, args.value());
        if !trailing.carries_on(ts, args.pos + 1) {
            trailing.stop()
        } else {
            let all = callback_pipe(ts, trailing.pos, trailing.macros, trailing.value());
            match all.out {
                Ok(a) => Step::ok(
                    ExprView::Call {
                        callee: Box::new(callee),
                        args: a,
                        token: token_at(ts, args.pos),
                    },
                    all.pos,
                    all.macros,
                ),
                Err(_) => all.stop(),
            }
        }
    }
}

/// The arguments of a call, added to `acc`: none before `)`, else one or
/// more separated by commas.
pub open spec fn arguments(ts: Seq<TokenView>, pos: nat, m: MacroMap, acc: Seq<CallArgView>) -> Step<
    Seq<CallArgView>,
>
    decreases ts.len() - pos, 52nat,
{
    if kind_at(ts, pos) == TokenType::RParen {
        Step::ok(acc, pos, m)
    } else {
        more_arguments(ts, pos, m, acc)
    }
}

/// One argument, spread if `...` stands before it, and after a comma the
/// next.
pub open spec fn more_arguments(ts: Seq<TokenView>, pos: nat, m: MacroMap, acc: Seq<CallArgView>) -> Step<
    Seq<CallArgView>,
>
    decreases ts.len() - pos, 51nat,
{
    let spread = kind_at(ts, pos) == TokenType::Ellipsis;
    let start = if spread {
        pos + 1
    } else {
        pos
    };
    let arg = expression(ts, start, m);
    if !arg.carries_on(ts, start) {
        arg.stop()
    } else {
        let grown = acc.push(
            if spread {
                CallArgView::Unpacking(arg.value())
            } else {
                CallArgView::Positional(arg.value())
            },
        );
        if kind_at(ts, arg.pos) == TokenType::Comma {
            more_arguments(ts, arg.pos + 1, arg.macros, grown)
        } else {
            Step::ok(grown, arg.pos, arg.macros)
        }
    }
}

/// After the `)` of a call: `<| expr` adds `expr` as one more argument.
pub open spec fn trailing_pipe(ts: Seq<TokenView>, pos: nat, m: MacroMap, args: Seq<CallArgView>) -> Step<
    Seq<CallArgView>,
>
    decreases ts.len() - pos, 51nat,
{
    if kind_at(ts, pos) == TokenType::LPipe {
        let arg = expression(ts, pos + 1, m);
        match arg.out {
            Ok(e) => Step::ok(args.push(CallArgView::Positional(e)), arg.pos, arg.macros),
            Err(_) => arg.stop(),
        }
    } else {
        Step::ok(args, pos, m)
    }
}

/// After the `)` of a call: `<~ (params) body` adds a lambda as one more
/// argument; without `(` the lambda takes no parameters.
pub open spec fn callback_pipe(ts: Seq<TokenView>, pos: nat, m: MacroMap, args: Seq<CallArgView>) -> Step<
    Seq<CallArgView>,
>
    decreases ts.len() - pos, 51nat,
{
    if kind_at(ts, pos) == TokenType::LTilde {
        let sig = if kind_at(ts, pos + 1) == TokenType::LParen {
            parameters(ts, pos + 1, m)
        } else {
            Step::ok(Signature { params: Seq::empty(), rest: None }, pos + 1, m)
        };
        if !sig.carries_on(ts, pos + 1) {
            sig.stop()
        } else {
            let body = expression(ts, sig.pos, sig.macros);
            match body.out {
                Ok(b) => Step::ok(
                    args.push(
                        CallArgView::Positional(
                            ExprView::Func {
                                public: false,
                                name: None,
                                params: sig.value().params,
                                rest: sig.value().rest,
                                body: Box::new(b),
                            },
                        ),
                    ),
                    body.pos,
                    body.macros,
                ),
                Err(_) => body.stop(),
            }
        }
    } else {
        Step::ok(args, pos, m)
    }
}

/// A parameter list: `(`, the parameters, `)`.
pub open spec fn parameters(ts: Seq<TokenView>, pos: nat, m: MacroMap) -> Step<Signature>
    decreases ts.len() - pos, 6nat,
{
    if kind_at(ts, pos) != TokenType::LParen {
        Step::fail(ErrorKind::ExpectedLParen, pos, m)
    } else {
        let items = if kind_at(ts, pos + 1) == TokenType::RParen {
            Step::ok(Signature { params: Seq::empty(), rest: None }, pos + 1, m)
        } else {
            parameter_items(ts, pos + 1, m, Signature { params: Seq::empty(), rest: None })
        };
        match items.out {
            Ok(sig) => if kind_at(ts, items.pos) == TokenType::RParen {
                Step::ok(sig, items.pos + 1, items.macros)
            } else {
                Step::fail(ErrorKind::ExpectedRParen, items.pos, items.macros)
            },
            Err(_) => items,
        }
    }
}

/// The parameters after `(`, added to `sig`: identifiers and `_`, separated
/// by commas. An identifier followed by `+` is the rest parameter, and
/// nothing may follow it.
pub open spec fn parameter_items(ts: Seq<TokenView>, pos: nat, m: MacroMap, sig: Signature) -> Step<
    Signature,
>
    decreases ts.len() - pos, 5nat,
{
    if sig.rest is Some {
        Step::fail(ErrorKind::ParameterAfterRest, pos, m)
    } else {
        let kind = kind_at(ts, pos);
        let variadic = kind == TokenType::Id && kind_at(ts, pos + 1) == TokenType::Plus;
        let plain = (kind == TokenType::Id && !variadic) || kind == TokenType::Underscore;
        let grown = Signature {
            params: if plain {
                sig.params.push(token_at(ts, pos))
            } else {
                sig.params
            },
            rest: if variadic {
                Some(token_at(ts, pos))
            } else {
                None
            },
        };
        let next = if variadic {
            pos + 2
        } else if plain {
            pos + 1
        } else {
            pos
        };
        if kind_at(ts, next) == TokenType::Comma {
            parameter_items(ts, next + 1, m, grown)
        } else {
            Step::ok(grown, next, m)
        }
    }
}

/// A primary expression, told by its first token: a literal, `_`, `null`,
/// an identifier, a group, a list, an object or block, a lambda, a
/// function, a decorated function, a `match`, a `try`, an `unsafe`, a shell
/// escape, or a macro form.
pub open spec fn primary(ts: Seq<TokenView>, pos: nat, m: MacroMap) -> Step<ExprView>
    decreases ts.len() - pos, 12nat,
{
    let kind = kind_at(ts, pos);
    let token = token_at(ts, pos);
    if kind == TokenType::True || kind == TokenType::False {
        Step::ok(ExprView::BoolLiteral { token, payload: kind == TokenType::True }, pos + 1, m)
    } else if kind == TokenType::Underscore {
        Step::ok(ExprView::Underscore { token }, pos + 1, m)
    } else if kind == TokenType::Null {
        Step::ok(ExprView::Null { token }, pos + 1, m)
    } else if kind == TokenType::Int {
        match int_value(token.lexeme) {
            Some(value) => Step::ok(ExprView::IntegerLiteral { token, value }, pos + 1, m),
            None => Step::fail(ErrorKind::InvalidNumber, pos + 1, m),
        }
    } else if kind == TokenType::Float {
        if is_float_text(token.lexeme) {
            Step::ok(ExprView::FloatLiteral { token, value: token.lexeme }, pos + 1, m)
        } else {
            Step::fail(ErrorKind::InvalidNumber, pos + 1, m)
        }
    } else if kind == TokenType::Str {
        Step::ok(ExprView::StringLiteral { token, value: token.lexeme }, pos + 1, m)
    } else if kind == TokenType::Atom {
        Step::ok(ExprView::AtomLiteral { token, value: token.lexeme }, pos + 1, m)
    } else if kind == TokenType::Id {
        Step::ok(ExprView::Variable { name: token }, pos + 1, m)
    } else if kind == TokenType::LParen {
        group(ts, pos + 1, m)
    } else if kind == TokenType::LBracket {
        list_literal(ts, pos + 1, m, token)
    } else if kind == TokenType::LBrace {
        braces(ts, pos + 1, m, token)
    } else if kind == TokenType::MinusGT {
        lambda(ts, pos + 1, m)
    } else if kind == TokenType::Func {
        function(ts, pos, m, false, Seq::empty())
    } else if kind == TokenType::Public {
        function(ts, pos + 1, m, true, Seq::empty())
    } else if kind == TokenType::At {
        decorated(ts, pos + 1, m)
    } else if kind == TokenType::Match {
        match_expression(ts, pos + 1, m, token)
    } else if kind == TokenType::Try {
        try_expression(ts, pos + 1, m, token)
    } else if kind == TokenType::Unsafe {
        unsafe_expression(ts, pos + 1, m, token)
    } else if kind == TokenType::Dollar {
        shell_expression(ts, pos + 1, m, token)
    } else if kind == TokenType::Def {
        define_macro(ts, pos + 1, m)
    } else if kind == TokenType::Redef {
        redefine_macro(ts, pos + 1, m)
    } else if kind == TokenType::Hash {
        use_macro(ts, pos + 1, m)
    } else {
        Step::fail(ErrorKind::UnexpectedToken, pos, m)
    }
}

/// A group after its `(`: an expression, then `)`.
pub open spec fn group(ts: Seq<TokenView>, pos: nat, m: MacroMap) -> Step<ExprView>
    decreases ts.len() - pos, 51nat,
{
    let inner = expression(ts, pos, m);
    match inner.out {
        Ok(e) => if kind_at(ts, inner.pos) == TokenType::RParen {
            Step::ok(ExprView::Group { expr: Box::new(e) }, inner.pos + 1, inner.macros)
        } else {
            Step::fail(ErrorKind::ExpectedRParen, inner.pos, inner.macros)
        },
        Err(_) => inner,
    }
}

/// A list literal after its `[`, which is `mark`: the elements, then `]`.
pub open spec fn list_literal(ts: Seq<TokenView>, pos: nat, m: MacroMap, mark: TokenView) -> Step<
    ExprView,
>
    decreases ts.len() - pos, 51nat,
{
    let items = list_items(ts, pos, m, Seq::empty());
    match items.out {
        Ok(values) => if kind_at(ts, items.pos) == TokenType::RBracket {
            Step::ok(ExprView::ListLiteral { token: mark, values }, items.pos + 1, items.macros)
        } else {
            Step::fail(ErrorKind::ExpectedRBracket, items.pos, items.macros)
        },
        Err(_) => items.stop(),
    }
}

/// The elements of a list, added to `acc`: expressions separated by commas,
/// up to `]` or the end; a comma may stand before the `]`.
pub open spec fn list_items(ts: Seq<TokenView>, pos: nat, m: MacroMap, acc: Seq<ExprView>) -> Step<
    Seq<ExprView>,
>
    decreases ts.len() - pos, 50nat,
{
    if kind_at(ts, pos) == TokenType::RBracket || at_end(ts, pos) {
        Step::ok(acc, pos, m)
    } else {
        let item = expression(ts, pos, m);
        if !item.carries_on(ts, pos) {
            item.stop()
        } else if kind_at(ts, item.pos) == TokenType::Comma {
            list_items(ts, item.pos + 1, item.macros, acc.push(item.value()))
        } else {
            Step::ok(acc.push(item.value()), item.pos, item.macros)
        }
    }
}

/// What stands after `{`, which is `mark`: `}` closes an empty object; else
/// an expression follows, and a `:` after it tells an object from a block.
pub open spec fn braces(ts: Seq<TokenView>, pos: nat, m: MacroMap, mark: TokenView) -> Step<ExprView>
    decreases ts.len() - pos, 53nat,
{
    if kind_at(ts, pos) == TokenType::RBrace {
        Step::ok(
            ExprView::ObjectLiteral { token: mark, keys: Seq::empty(), values: Seq::empty() },
            pos + 1,
            m,
        )
    } else {
        let first = expression(ts, pos, m);
        if !first.carries_on(ts, pos) {
            first
        } else if at_end(ts, first.pos) {
            Step::fail(ErrorKind::UnexpectedEndInBraces, first.pos, first.macros)
        } else if kind_at(ts, first.pos) == TokenType::Colon {
            object_literal(ts, first.pos + 1, first.macros, first.value())
        } else {
            block(ts, first.pos, first.macros, first.value())
        }
    }
}

/// An object literal after its first key and `:`. The key must be a bare
/// variable; its token stands for the whole literal.
pub open spec fn object_literal(ts: Seq<TokenView>, pos: nat, m: MacroMap, key: ExprView) -> Step<
    ExprView,
>
    decreases ts.len() - pos, 52nat,
{
    match key {
        ExprView::Variable { name } => {
            let value = expression(ts, pos, m);
            if !value.carries_on(ts, pos) {
                value
            } else {
                let first = Entries { keys: seq![name], values: seq![value.value()] };
                let entries = if kind_at(ts, value.pos) == TokenType::Comma {
                    object_entries(ts, value.pos + 1, value.macros, first)
                } else {
                    Step::ok(first, value.pos, value.macros)
                };
                match entries.out {
                    Ok(all) => if kind_at(ts, entries.pos) == TokenType::RBrace {
                        Step::ok(
                            ExprView::ObjectLiteral { token: name, keys: all.keys, values: all.values },
                            entries.pos + 1,
                            entries.macros,
                        )
                    } else {
                        Step::fail(ErrorKind::ExpectedRBrace, entries.pos, entries.macros)
                    },
                    Err(_) => entries.stop(),
                }
            }
        },
        _ => Step::fail(ErrorKind::ExpectedIdentifier, pos, m),
    }
}

/// The further entries of an object, added to `acc`: `name : expression`,
/// separated by commas, up to `}` or the end; a comma may stand before the
/// `}`.
pub open spec fn object_entries(ts: Seq<TokenView>, pos: nat, m: MacroMap, acc: Entries) -> Step<Entries>
    decreases ts.len() - pos, 50nat,
{
    if kind_at(ts, pos) == TokenType::RBrace || at_end(ts, pos) {
        Step::ok(acc, pos, m)
    } else if kind_at(ts, pos) != TokenType::Id {
        Step::fail(ErrorKind::ExpectedIdentifier, pos, m)
    } else if kind_at(ts, pos + 1) != TokenType::Colon {
        Step::fail(ErrorKind::ExpectedColon, pos + 1, m)
    } else {
        let value = expression(ts, pos + 2, m);
        if !value.carries_on(ts, pos + 2) {
            value.stop()
        } else {
            let grown = Entries {
                keys: acc.keys.push(token_at(ts, pos)),
                values: acc.values.push(value.value()),
            };
            if kind_at(ts, value.pos) == TokenType::Comma {
                object_entries(ts, value.pos + 1, value.macros, grown)
            } else {
                Step::ok(grown, value.pos, value.macros)
            }
        }
    }
}

/// A block after its first expression: more expressions, one after the
/// other, then `}`, whose token stands for the block.
pub open spec fn block(ts: Seq<TokenView>, pos: nat, m: MacroMap, first: ExprView) -> Step<ExprView>
    decreases ts.len() - pos, 51nat,
{
    let items = block_items(ts, pos, m, seq![first]);
    match items.out {
        Ok(exprs) => if kind_at(ts, items.pos) == TokenType::RBrace {
            Step::ok(
                ExprView::Block { token: token_at(ts, items.pos), exprs },
                items.pos + 1,
                items.macros,
            )
        } else {
            Step::fail(ErrorKind::ExpectedRBrace, items.pos, items.macros)
        },
        Err(_) => items.stop(),
    }
}

/// The further expressions of a block, added to `acc`, up to `}` or the
/// end.
pub open spec fn block_items(ts: Seq<TokenView>, pos: nat, m: MacroMap, acc: Seq<ExprView>) -> Step<
    Seq<ExprView>,
>
    decreases ts.len() - pos, 50nat,
{
    if kind_at(ts, pos) == TokenType::RBrace || at_end(ts, pos) {
        Step::ok(acc, pos, m)
    } else {
        let item = expression(ts, pos, m);
        if item.moves_on(ts, pos) {
            block_items(ts, item.pos, item.macros, acc.push(item.value()))
        } else {
            item.stop()
        }
    }
}

/// A lambda after `->`: it takes no parameters, and its body is one
/// expression.
pub open spec fn lambda(ts: Seq<TokenView>, pos: nat, m: MacroMap) -> Step<ExprView>
    decreases ts.len() - pos, 51nat,
{
    let body = expression(ts, pos, m);
    match body.out {
        Ok(b) => Step::ok(
            ExprView::Func {
                public: false,
                name: None,
                params: Seq::empty(),
                rest: None,
                body: Box::new(b),
            },
            body.pos,
            body.macros,
        ),
        Err(_) => body,
    }
}

/// A function: `public` if not yet seen, `func`, a name if there is one,
/// the parameters, and the body. `decorators` are those read before it.
pub open spec fn function(
    ts: Seq<TokenView>,
    pos: nat,
    m: MacroMap,
    public: bool,
    decorators: Seq<DecoratorView>,
) -> Step<ExprView>
    decreases ts.len() - pos, 11nat,
{
    let marked = !public && kind_at(ts, pos) == TokenType::Public;
    let start = if marked {
        pos + 1
    } else {
        pos
    };
    if kind_at(ts, start) != TokenType::Func {
        Step::fail(ErrorKind::ExpectedFunc, start, m)
    } else {
        let named = kind_at(ts, start + 1) == TokenType::Id;
        let name = if named {
            Some(token_at(ts, start + 1))
        } else {
            None
        };
        let open = if named {
            start + 2
        } else {
            start + 1
        };
        let sig = parameters(ts, open, m);
        if !sig.carries_on(ts, open) {
            sig.stop()
        } else {
            let body = expression(ts, sig.pos, sig.macros);
            match body.out {
                Ok(b) => function_node(
                    public || marked,
                    name,
                    sig.value(),
                    b,
                    decorators,
                    previous_at(ts, body.pos),
                    body.pos,
                    body.macros,
                ),
                Err(_) => body,
            }
        }
    }
}

/// A decorated function after `@`: `[`, the decorators, `]`, the function.
pub open spec fn decorated(ts: Seq<TokenView>, pos: nat, m: MacroMap) -> Step<ExprView>
    decreases ts.len() - pos, 55nat,
{
    if kind_at(ts, pos) != TokenType::LBracket {
        Step::fail(ErrorKind::ExpectedLBracket, pos, m)
    } else {
        let list = decorators(ts, pos + 1, m, Seq::empty());
        if !list.carries_on(ts, pos + 1) {
            list.stop()
        } else if kind_at(ts, list.pos) != TokenType::RBracket {
            Step::fail(ErrorKind::ExpectedRBracket, list.pos, list.macros)
        } else {
            function(ts, list.pos + 1, list.macros, false, list.value())
        }
    }
}

/// The decorators after `[`, added to `acc`: each is an identifier, with
/// arguments in parentheses if `(` follows; commas separate them.
pub open spec fn decorators(ts: Seq<TokenView>, pos: nat, m: MacroMap, acc: Seq<DecoratorView>) -> Step<
    Seq<DecoratorView>,
>
    decreases ts.len() - pos, 54nat,
{
    if kind_at(ts, pos) == TokenType::RBracket {
        Step::ok(acc, pos, m)
    } else if kind_at(ts, pos) != TokenType::Id {
        Step::fail(ErrorKind::ExpectedIdentifier, pos, m)
    } else {
        let name = token_at(ts, pos);
        let next = pos + 1;
        if kind_at(ts, next) == TokenType::LParen {
            let args = arguments(ts, next + 1, m, Seq::empty());
            if !args.carries_on(ts, next + 1) {
                args.stop()
            } else if kind_at(ts, args.pos) != TokenType::RParen {
                Step::fail(ErrorKind::ExpectedRParen, args.pos, args.macros)
            } else {
                let grown = acc.push(DecoratorView { name, args: args.value() });
                if kind_at(ts, args.pos + 1) == TokenType::Comma {
                    decorators(ts, args.pos + 2, args.macros, grown)
                } else {
                    Step::ok(grown, args.pos + 1, args.macros)
                }
            }
        } else {
            let grown = acc.push(DecoratorView { name, args: Seq::empty() });
            if kind_at(ts, next) == TokenType::Comma {
                decorators(ts, next + 1, m, grown)
            } else {
                Step::ok(grown, next, m)
            }
        }
    }
}

/// A `match` after its keyword, which is `mark`: the condition, `{`, the
/// branches, `}`.
pub open spec fn match_expression(ts: Seq<TokenView>, pos: nat, m: MacroMap, mark: TokenView) -> Step<
    ExprView,
>
    decreases ts.len() - pos, 51nat,
{
    let cond = expression(ts, pos, m);
    if !cond.carries_on(ts, pos) {
        cond
    } else if kind_at(ts, cond.pos) != TokenType::LBrace {
        Step::fail(ErrorKind::ExpectedLBrace, cond.pos, cond.macros)
    } else {
        let arms = match_branches(ts, cond.pos + 1, cond.macros, Seq::empty());
        match arms.out {
            Ok(branches) => if kind_at(ts, arms.pos) == TokenType::RBrace {
                Step::ok(
                    ExprView::Match { token: mark, condition: Box::new(cond.value()), branches },
                    arms.pos + 1,
                    arms.macros,
                )
            } else {
                Step::fail(ErrorKind::ExpectedRBrace, arms.pos, arms.macros)
            },
            Err(_) => arms.stop(),
        }
    }
}

/// The branches of a `match`, added to `acc`, in the order written:
/// `pattern -> body`, separated by commas, up to `}`; a comma may stand
/// before the `}`.
pub open spec fn match_branches(
    ts: Seq<TokenView>,
    pos: nat,
    m: MacroMap,
    acc: Seq<MatchBranchView>,
) -> Step<Seq<MatchBranchView>>
    decreases ts.len() - pos, 50nat,
{
    if kind_at(ts, pos) == TokenType::RBrace {
        Step::ok(acc, pos, m)
    } else {
        let target = expression(ts, pos, m);
        if !target.carries_on(ts, pos) {
            target.stop()
        } else if kind_at(ts, target.pos) != TokenType::MinusGT {
            Step::fail(ErrorKind::ExpectedArrow, target.pos, target.macros)
        } else {
            let body = expression(ts, target.pos + 1, target.macros);
            if !body.carries_on(ts, target.pos + 1) {
                body.stop()
            } else {
                let grown = acc.push(
                    MatchBranchView { target: target.value(), body: body.value() },
                );
                if kind_at(ts, body.pos) == TokenType::Comma {
                    match_branches(ts, body.pos + 1, body.macros, grown)
                } else {
                    Step::ok(grown, body.pos, body.macros)
                }
            }
        }
    }
}

/// A `try` after its keyword, which is `mark`: the expression tried, the
/// handler, and after `else` the success value, which is `null` otherwise.
pub open spec fn try_expression(ts: Seq<TokenView>, pos: nat, m: MacroMap, mark: TokenView) -> Step<
    ExprView,
>
    decreases ts.len() - pos, 51nat,
{
    let result = expression(ts, pos, m);
    if !result.carries_on(ts, pos) {
        result
    } else {
        let handler = expression(ts, result.pos, result.macros);
        if !handler.carries_on(ts, result.pos) {
            handler
        } else {
            let success = if kind_at(ts, handler.pos) == TokenType::Else {
                expression(ts, handler.pos + 1, handler.macros)
            } else {
                Step::ok(ExprView::Null { token: mark }, handler.pos, handler.macros)
            };
            match success.out {
                Ok(s) => Step::ok(
                    try_node(mark, result.value(), handler.value(), s),
                    success.pos,
                    success.macros,
                ),
                Err(_) => success,
            }
        }
    }
}

/// `unsafe` and the expression it marks.
pub open spec fn unsafe_expression(ts: Seq<TokenView>, pos: nat, m: MacroMap, mark: TokenView) -> Step<
    ExprView,
>
    decreases ts.len() - pos, 51nat,
{
    let inner = expression(ts, pos, m);
    match inner.out {
        Ok(e) => Step::ok(ExprView::Unsafe { token: mark, expr: Box::new(e) }, inner.pos, inner.macros),
        Err(_) => inner,
    }
}

/// `$` and the expression handed to the shell.
pub open spec fn shell_expression(ts: Seq<TokenView>, pos: nat, m: MacroMap, mark: TokenView) -> Step<
    ExprView,
>
    decreases ts.len() - pos, 51nat,
{
    let inner = expression(ts, pos, m);
    match inner.out {
        Ok(e) => Step::ok(ExprView::Shell { token: mark, expr: Box::new(e) }, inner.pos, inner.macros),
        Err(_) => inner,
    }
}

/// `def` after its keyword: a name and an expression. The name must be new;
/// it then stands for the expression, and the form itself is `null`.
pub open spec fn define_macro(ts: Seq<TokenView>, pos: nat, m: MacroMap) -> Step<ExprView>
    decreases ts.len() - pos, 51nat,
{
    if kind_at(ts, pos) != TokenType::Id {
        Step::fail(ErrorKind::ExpectedIdentifier, pos, m)
    } else {
        let name = token_at(ts, pos);
        let body = expression(ts, pos + 1, m);
        match body.out {
            Ok(b) => if body.macros.dom().contains(name.lexeme) {
                Step::fail(ErrorKind::MacroAlreadyDefined, body.pos, body.macros)
            } else {
                Step::ok(
                    ExprView::Null { token: name },
                    body.pos,
                    body.macros.insert(name.lexeme, b),
                )
            },
            Err(_) => body,
        }
    }
}

/// `redef` after its keyword: a name and an expression. The name must be
/// defined; it then stands for the new expression, and the form itself is
/// `null`.
pub open spec fn redefine_macro(ts: Seq<TokenView>, pos: nat, m: MacroMap) -> Step<ExprView>
    decreases ts.len() - pos, 51nat,
{
    if kind_at(ts, pos) != TokenType::Id {
        Step::fail(ErrorKind::ExpectedIdentifier, pos, m)
    } else {
        let name = token_at(ts, pos);
        let body = expression(ts, pos + 1, m);
        match body.out {
            Ok(b) => if body.macros.dom().contains(name.lexeme) {
                Step::ok(
                    ExprView::Null { token: name },
                    body.pos,
                    body.macros.insert(name.lexeme, b),
                )
            } else {
                Step::fail(ErrorKind::MacroNotDefined, body.pos, body.macros)
            },
            Err(_) => body,
        }
    }
}

/// `#name`: the tree that the macro `name` stands for.
pub open spec fn use_macro(ts: Seq<TokenView>, pos: nat, m: MacroMap) -> Step<ExprView> {
    if kind_at(ts, pos) != TokenType::Id {
        Step::fail(ErrorKind::ExpectedIdentifier, pos, m)
    } else if m.dom().contains(token_at(ts, pos).lexeme) {
        Step::ok(m[token_at(ts, pos).lexeme], pos + 1, m)
    } else {
        Step::fail(ErrorKind::MacroUndefined, pos + 1, m)
    }
}

/// Whether a token of this kind can begin a new top-level form.
pub open spec fn is_restart(kind: TokenType) -> bool {
    kind == TokenType::Func || kind == TokenType::Match || kind == TokenType::Def || kind
        == TokenType::Redef || kind == TokenType::Try || kind == TokenType::Unsafe || kind
        == TokenType::Id
}

/// Where skipping stops from `pos` on: at the first token that can begin
/// a top-level form, or at the end.
pub open spec fn skip_to_restart(ts: Seq<TokenView>, pos: nat) -> nat
    decreases ts.len() - pos,
{
    if at_end(ts, pos) || is_restart(kind_at(ts, pos)) {
        pos
    } else {
        skip_to_restart(ts, pos + 1)
    }
}

/// Where parsing resumes after an error found at `pos`: the token at `pos`
/// is dropped whatever it is, and the tokens after it are skipped up to
/// the first that can begin a top-level form, or to the end.
pub open spec fn synchronize(ts: Seq<TokenView>, pos: nat) -> nat {
    if at_end(ts, pos) {
        pos
    } else {
        skip_to_restart(ts, pos + 1)
    }
}

/// The error of kind `kind` found with the cursor at `pos`.
pub open spec fn error_at(ts: Seq<TokenView>, pos: nat, kind: ErrorKind) -> ErrorView {
    ErrorView {
        message: message_text(kind),
        line: token_at(ts, pos).line,
        col: token_at(ts, pos).col,
    }
}

/// What one turn of the top-level loop yields.
pub struct Turn {
    /// The node, if an expression was recognised.
    pub node: Option<ExprView>,
    /// The error, if none was.
    pub error: Option<ErrorView>,
    /// Where the next turn starts.
    pub pos: nat,
    /// The macros defined by then.
    pub macros: MacroMap,
}

/// One top-level form: an expression, or else its error, placed at the
/// token at which the expression failed, with the cursor moved on to where
/// parsing resumes.
pub open spec fn top_level(ts: Seq<TokenView>, pos: nat, m: MacroMap) -> Turn {
    let step = expression(ts, pos, m);
    match step.out {
        Ok(e) => Turn { node: Some(e), error: None, pos: step.pos, macros: step.macros },
        Err(kind) => Turn {
            node: None,
            error: Some(error_at(ts, step.pos, kind)),
            pos: synchronize(ts, step.pos),
            macros: step.macros,
        },
    }
}

/// What a whole stream yields.
pub struct Outcome {
    /// The nodes recognised, in source order.
    pub nodes: Seq<ExprView>,
    /// The errors found, in source order.
    pub errors: Seq<ErrorView>,
    /// Where parsing ended.
    pub pos: nat,
    /// The macros defined in the end.
    pub macros: MacroMap,
}

/// `items` with `item` added, if there is one.
pub open spec fn with_optional<T>(items: Seq<T>, item: Option<T>) -> Seq<T> {
    match item {
        Some(x) => items.push(x),
        None => items,
    }
}

/// The top-level forms from `pos` to the end of the stream, added to
/// `nodes` and `errors`.
pub open spec fn program(
    ts: Seq<TokenView>,
    pos: nat,
    m: MacroMap,
    nodes: Seq<ExprView>,
    errors: Seq<ErrorView>,
) -> Outcome
    decreases ts.len() - pos,
{
    if at_end(ts, pos) {
        Outcome { nodes, errors, pos, macros: m }
    } else {
        let turn = top_level(ts, pos, m);
        if pos < turn.pos <= ts.len() {
            program(
                ts,
                turn.pos,
                turn.macros,
                with_optional(nodes, turn.node),
                with_optional(errors, turn.error),
            )
        } else {
            Outcome { nodes, errors, pos, macros: m }
        }
    }
}

/// What the stream `ts` yields when parsed from its start with no macros
/// defined.
pub open spec fn parsed(ts: Seq<TokenView>) -> Outcome {
    program(ts, 0, Map::empty(), Seq::empty(), Seq::empty())
}

/// The nodes that a stream sends downstream: those recognised, in source
/// order, then the end marker.
pub open spec fn node_stream(ts: Seq<TokenView>) -> Seq<ExprView> {
    parsed(ts).nodes.push(ExprView::End)
}

} // verus!
