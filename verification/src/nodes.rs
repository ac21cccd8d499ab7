//! Building nodes: what each rule makes of the parts it has read.

use vstd::prelude::*;
use vstd::string::*;
use crate::ast::{
    arg_models, branch_models, models, optional_token_view, CallArg, CallArgView, Expr, ExprView,
    MatchBranch, MatchBranchView,
};
use crate::error::ErrorKind;
use crate::grammar;
use crate::grammar::{DecoratorView, Entries, Level, MacroMap, Signature, Step};
use crate::token::{token_views, Token, TokenType};

verus! {

/// A decorator as read: the token that names it, and its own arguments.
pub struct Decorator {
    pub name: Token,
    pub args: Vec<CallArg>,
}

/// The values of a run of decorators, in order.
pub open spec fn decorator_views(decorators: Seq<Decorator>) -> Seq<DecoratorView> {
    Seq::new(
        decorators.len(),
        |i: int| DecoratorView { name: decorators[i].name@, args: arg_models(decorators[i].args@) },
    )
}

/// The value of the result of a rule that yields a tree.
pub open spec fn result_view(r: Result<Expr, ErrorKind>) -> Result<ExprView, ErrorKind> {
    match r {
        Ok(e) => Ok(e@),
        Err(k) => Err(k),
    }
}

/// The value of an optional tree.
pub open spec fn optional_view(e: Option<Expr>) -> Option<ExprView> {
    match e {
        Some(e) => Some(e@),
        None => None,
    }
}

/// The value of the result of a rule that yields call arguments.
pub open spec fn args_view(r: Result<Vec<CallArg>, ErrorKind>) -> Result<Seq<CallArgView>, ErrorKind> {
    match r {
        Ok(args) => Ok(arg_models(args@)),
        Err(k) => Err(k),
    }
}

/// The value of the result of a rule that yields a run of trees.
pub open spec fn exprs_view(r: Result<Vec<Box<Expr>>, ErrorKind>) -> Result<Seq<ExprView>, ErrorKind> {
    match r {
        Ok(exprs) => Ok(models(exprs@)),
        Err(k) => Err(k),
    }
}

/// The value of the result of a rule that yields parameters.
pub open spec fn signature_view(r: Result<(Vec<Token>, Option<Token>), ErrorKind>) -> Result<
    Signature,
    ErrorKind,
> {
    match r {
        Ok(sig) => Ok(Signature { params: token_views(sig.0@), rest: optional_token_view(sig.1) }),
        Err(k) => Err(k),
    }
}

/// The value of the result of a rule that yields object entries.
pub open spec fn entries_view(r: Result<(Vec<Token>, Vec<Box<Expr>>), ErrorKind>) -> Result<
    Entries,
    ErrorKind,
> {
    match r {
        Ok(entries) => Ok(Entries { keys: token_views(entries.0@), values: models(entries.1@) }),
        Err(k) => Err(k),
    }
}

/// The value of the result of a rule that yields match branches.
pub open spec fn branches_view(r: Result<Vec<MatchBranch>, ErrorKind>) -> Result<
    Seq<MatchBranchView>,
    ErrorKind,
> {
    match r {
        Ok(branches) => Ok(branch_models(branches@)),
        Err(k) => Err(k),
    }
}

/// The value of the result of a rule that yields decorators.
pub open spec fn decorators_view(r: Result<Vec<Decorator>, ErrorKind>) -> Result<
    Seq<DecoratorView>,
    ErrorKind,
> {
    match r {
        Ok(decorators) => Ok(decorator_views(decorators@)),
        Err(k) => Err(k),
    }
}

/// Appending a decorator appends its value.
pub proof fn lemma_decorator_views_push(decorators: Seq<Decorator>, d: Decorator)
    ensures
        decorator_views(decorators.push(d)) == decorator_views(decorators).push(
            DecoratorView { name: d.name@, args: arg_models(d.args@) },
        ),
{
    assert(decorator_views(decorators.push(d)) =~= decorator_views(decorators).push(
        DecoratorView { name: d.name@, args: arg_models(d.args@) },
    ));
}

pub fn is_level_operator(level: Level, kind: TokenType) -> (r: bool)
    ensures
        r == grammar::is_operator(level, kind),
{
    match level {
        Level::Factor => kind == TokenType::Div || kind == TokenType::Mul || kind == TokenType::Mod,
        Level::Term => kind == TokenType::Minus || kind == TokenType::Plus,
        Level::Comparison => kind == TokenType::GT || kind == TokenType::GTEq || kind
            == TokenType::LT || kind == TokenType::LTEq,
        Level::Equality => kind == TokenType::BangEq || kind == TokenType::DEq,
        Level::And => kind == TokenType::DAmp || kind == TokenType::And,
        Level::Or => kind == TokenType::DPipe || kind == TokenType::Or,
    }
}

pub fn combine(level: Level, left: Expr, right: Expr, op: Token) -> (e: Expr)
    ensures
        e@ == grammar::combine(level, left@, right@, op@),
{
    match level {
        Level::And | Level::Or => Expr::Logical { left: Box::new(left), right: Box::new(right), op },
        _ => Expr::Binary { left: Box::new(left), right: Box::new(right), op },
    }
}

pub fn is_target(e: &Expr) -> (r: bool)
    ensures
        r == grammar::is_target(e@),
{
    match e {
        Expr::Variable { .. } => true,
        Expr::Get { .. } => true,
        Expr::Underscore { .. } => true,
        _ => false,
    }
}

pub fn all_targets(items: &Vec<Box<Expr>>) -> (r: bool)
    ensures
        r == grammar::all_targets(models(items@)),
{
    let mut i: usize = 0;
    while i < items.len()
        invariant
            i <= items.len(),
            forall|j: int| 0 <= j < i ==> grammar::is_target(#[trigger] models(items@)[j]),
        decreases items.len() - i,
    {
        if !is_target(&items[i]) {
            assert(!grammar::is_target(models(items@)[i as int]));
            return false;
        }
        i = i + 1;
    }
    true
}

pub fn clone_optional(e: &Option<Expr>) -> (copy: Option<Expr>)
    ensures
        optional_view(copy) == optional_view(*e),
{
    match e {
        Some(e) => Some(e.deep_copy()),
        None => None,
    }
}

/// The node for a binding, once both sides are read.
pub fn bind(left: Expr, right: Expr, kind: TokenType) -> (r: Result<Expr, ErrorKind>)
    ensures
        forall|pos: nat, m: MacroMap|
            grammar::bind(left@, right@, kind, pos, m) == (Step { out: result_view(r), pos, macros: m }),
        r matches Ok(e) ==> !(e@ is End),
{
    let init = kind == TokenType::ColonEq || kind == TokenType::PipeEq;
    let public = kind == TokenType::PipeEq;
    let mutable = kind == TokenType::DollarEq;
    if let Expr::Assign { .. } = right {
        return Err(ErrorKind::AssignmentAsValue);
    }
    match left {
        Expr::ObjectLiteral { token, keys, values } => {
            if all_targets(&values) {
                let mark = token.clone();
                Ok(
                    Expr::Assign {
                        init,
                        public,
                        mutable,
                        token: mark,
                        left: Box::new(Expr::ObjectLiteral { token, keys, values }),
                        right: Box::new(right),
                    },
                )
            } else {
                Err(ErrorKind::InvalidObjectPattern)
            }
        },
        Expr::ListLiteral { token, values } => {
            if all_targets(&values) {
                let mark = token.clone();
                Ok(
                    Expr::Assign {
                        init,
                        public,
                        mutable,
                        token: mark,
                        left: Box::new(Expr::ListLiteral { token, values }),
                        right: Box::new(right),
                    },
                )
            } else {
                Err(ErrorKind::InvalidListPattern)
            }
        },
        Expr::Variable { name } => {
            let mark = name.clone();
            Ok(
                Expr::Assign {
                    init,
                    public,
                    mutable,
                    token: mark,
                    left: Box::new(Expr::Variable { name }),
                    right: Box::new(right),
                },
            )
        },
        Expr::Get { instance, value, token } => {
            let mark = member_token(&value, token);
            Ok(Expr::SetMember { instance, member: value, token: mark, value: Box::new(right) })
        },
        _ => Err(ErrorKind::InvalidAssignmentTarget),
    }
}

/// The token that stands for the member of an access whose `.` is `dot`.
pub fn member_token(member: &Expr, dot: Token) -> (token: Token)
    ensures
        token@ == grammar::member_token(member@, dot@),
{
    match member {
        Expr::Variable { name } => name.clone(),
        _ => dot,
    }
}

/// The plain operator of a compound assignment operator.
pub fn plain_operator(kind: TokenType) -> (plain: TokenType)
    ensures
        plain == grammar::plain_operator(kind),
{
    match kind {
        TokenType::PlusEq => TokenType::Plus,
        TokenType::MinusEq => TokenType::Minus,
        TokenType::MulEq => TokenType::Mul,
        TokenType::DivEq => TokenType::Div,
        TokenType::ModEq => TokenType::Mod,
        _ => kind,
    }
}

/// The node for a compound assignment, once both sides are read.
pub fn compound(left: Expr, right: Expr, op: Token) -> (r: Result<Expr, ErrorKind>)
    ensures
        forall|pos: nat, m: MacroMap|
            grammar::compound(left@, right@, op@, pos, m) == (Step { out: result_view(r), pos, macros: m }),
        r matches Ok(e) ==> !(e@ is End),
{
    let sign = Token {
        kind: plain_operator(op.kind),
        lexeme: op.lexeme,
        line: op.line,
        col: op.col,
    };
    match left {
        Expr::Variable { name } => {
            let mark = name.clone();
            let again = Expr::variable(name.clone());
            let sum = Expr::binary(again, right, sign);
            Ok(Expr::assign(false, false, false, mark, Expr::variable(name), sum))
        },
        _ => Err(ErrorKind::ExpectedVariable),
    }
}

/// The node for an increment or decrement.
pub fn increment(left: Expr, op: Token) -> (r: Result<Expr, ErrorKind>)
    ensures
        forall|pos: nat, m: MacroMap|
            grammar::increment(left@, op@, pos, m) == (Step { out: result_view(r), pos, macros: m }),
        r matches Ok(e) ==> !(e@ is End),
{
    let kind = if op.kind == TokenType::DPlus {
        TokenType::Plus
    } else {
        TokenType::Minus
    };
    let sign = Token { kind, lexeme: op.lexeme, line: op.line, col: op.col };
    match left {
        Expr::Variable { name } => {
            let mark = name.clone();
            let again = Expr::variable(name.clone());
            let one = Expr::integer(sign.clone(), 1);
            let sum = Expr::binary(again, one, sign);
            Ok(Expr::assign(false, false, false, mark, Expr::variable(name), sum))
        },
        _ => Err(ErrorKind::ExpectedVariable),
    }
}

/// `inner` wrapped in one decorator.
pub fn wrap(inner: Expr, decorator: &Decorator, mark: &Token) -> (e: Expr)
    ensures
        e@ == (ExprView::Call {
            callee: Box::new(ExprView::Variable { name: decorator.name@ }),
            args: seq![CallArgView::Positional(inner@)] + arg_models(decorator.args@),
            token: mark@,
        }),
{
    let ghost first = CallArgView::Positional(inner@);
    let mut args: Vec<CallArg> = Vec::new();
    args.push(CallArg::positional(inner));
    let mut i: usize = 0;
    while i < decorator.args.len()
        invariant
            i <= decorator.args.len(),
            args.len() == i + 1,
            args@[0].model() == first,
            forall|j: int| 0 <= j < i ==> (#[trigger] args@[j + 1]).model() == decorator.args@[j].model(),
        decreases decorator.args.len() - i,
    {
        let arg = decorator.args[i].clone();
        args.push(arg);
        i = i + 1;
    }
    assert(arg_models(args@) =~= seq![first] + arg_models(decorator.args@)) by {
        assert forall|k: int| 0 <= k < args@.len() implies arg_models(args@)[k] == (seq![first]
            + arg_models(decorator.args@))[k] by {
            if k > 0 {
                assert(args@[(k - 1) + 1].model() == decorator.args@[k - 1].model());
            }
        }
    }
    Expr::call(Expr::variable(decorator.name.clone()), args, mark.clone())
}

/// `inner` wrapped in all the decorators, the first one innermost.
pub fn decorate(decorators: &Vec<Decorator>, inner: Expr, mark: &Token) -> (e: Expr)
    ensures
        e@ == grammar::decorate(decorator_views(decorators@), inner@, mark@),
{
    let ghost all = decorator_views(decorators@);
    let ghost start = inner@;
    let mut right = inner;
    let mut i: usize = 0;
    assert(all.take(0) =~= Seq::<DecoratorView>::empty());
    while i < decorators.len()
        invariant
            i <= decorators.len(),
            all == decorator_views(decorators@),
            right@ == grammar::decorate(all.take(i as int), start, mark@),
        decreases decorators.len() - i,
    {
        proof {
            assert(all.take(i + 1).drop_last() =~= all.take(i as int));
            assert(all.take(i + 1).last() == all[i as int]);
        }
        right = wrap(right, &decorators[i], mark);
        i = i + 1;
    }
    assert(all.take(decorators.len() as int) =~= all);
    right
}

/// The node for a function, once its parts are read.
pub fn function_node(
    public: bool,
    name: Option<Token>,
    params: Vec<Token>,
    rest: Option<Token>,
    body: Expr,
    decorators: &Vec<Decorator>,
    mark: &Token,
) -> (r: Result<Expr, ErrorKind>)
    ensures
        forall|pos: nat, m: MacroMap|
            grammar::function_node(
                public,
                optional_token_view(name),
                Signature { params: token_views(params@), rest: optional_token_view(rest) },
                body@,
                decorator_views(decorators@),
                mark@,
                pos,
                m,
            ) == (Step { out: result_view(r), pos, macros: m }),
        r matches Ok(e) ==> !(e@ is End),
{
    if decorators.len() == 0 {
        Ok(Expr::Func { public, name, params, rest, body: Box::new(body) })
    } else {
        match name {
            Some(n) => {
                let lambda = Expr::Func {
                    public: false,
                    name: None,
                    params,
                    rest,
                    body: Box::new(body),
                };
                let right = decorate(decorators, lambda, mark);
                Ok(Expr::assign(true, public, false, n.clone(), Expr::variable(n), right))
            },
            None => Err(ErrorKind::ExpectedFunctionName),
        }
    }
}

/// The two branches `first`, `second`.
pub fn two_branches(first: MatchBranch, second: MatchBranch) -> (branches: Vec<MatchBranch>)
    ensures
        branch_models(branches@) == seq![first@, second@],
{
    let mut branches: Vec<MatchBranch> = Vec::new();
    branches.push(first);
    branches.push(second);
    assert(branch_models(branches@) =~= seq![first@, second@]);
    branches
}

/// The one argument `arg`.
pub fn one_argument(arg: CallArg) -> (args: Vec<CallArg>)
    ensures
        arg_models(args@) == seq![arg@],
{
    let mut args: Vec<CallArg> = Vec::new();
    args.push(arg);
    assert(arg_models(args@) =~= seq![arg@]);
    args
}

/// The node for a conditional.
pub fn ternary_node(mark: Token, cond: Expr, yes: Expr, no: Expr) -> (e: Expr)
    ensures
        e@ == grammar::ternary_node(mark@, cond@, yes@, no@),
{
    let first = MatchBranch::new(Expr::boolean(mark.clone(), true), yes);
    let second = MatchBranch::new(Expr::underscore(mark.clone()), no);
    Expr::matching(mark, cond, two_branches(first, second))
}

/// The node for a `try`.
pub fn try_node(mark: Token, result: Expr, handler: Expr, success: Expr) -> (e: Expr)
    ensures
        e@ == grammar::try_node(mark@, result@, handler@, success@),
{
    let probe = Token::new(TokenType::Id, String::from_str("error?"), mark.line, mark.col);
    let condition = Expr::call(
        Expr::variable(probe),
        one_argument(CallArg::positional(result)),
        mark.clone(),
    );
    let first = MatchBranch::new(Expr::boolean(mark.clone(), true), handler);
    let second = MatchBranch::new(Expr::boolean(mark.clone(), false), success);
    Expr::matching(mark, condition, two_branches(first, second))
}

} // verus!
