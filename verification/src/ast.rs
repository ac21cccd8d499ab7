//! The abstract syntax tree and its mathematical model.

use vstd::prelude::*;
use crate::token::{clone_tokens, token_views, Token, TokenView};

verus! {

/// One node of the syntax tree. Every node owns its children.
#[derive(Debug, PartialEq)]
#[allow(inconsistent_fields)]
pub enum Expr {
    /// An arithmetic, comparison or equality operation; `op` is the operator.
    Binary { left: Box<Expr>, right: Box<Expr>, op: Token },
    /// A parenthesised expression, kept as written.
    Group { expr: Box<Expr> },
    /// A prefix operation.
    Unary { right: Box<Expr>, op: Token },
    /// A string literal and its text.
    StringLiteral { token: Token, value: String },
    /// A floating-point literal; `value` is its numeral.
    FloatLiteral { token: Token, value: String },
    /// An integer literal and its value.
    IntegerLiteral { token: Token, value: i64 },
    /// `true` or `false`.
    BoolLiteral { token: Token, payload: bool },
    /// An atom, `:name`; `value` is the name.
    AtomLiteral { token: Token, value: String },
    /// The placeholder `_`.
    Underscore { token: Token },
    /// `null`.
    Null { token: Token },
    /// A list literal.
    ListLiteral { token: Token, values: Vec<Box<Expr>> },
    /// An object literal: `keys[i]` names `values[i]`.
    ObjectLiteral { token: Token, keys: Vec<Token>, values: Vec<Box<Expr>> },
    /// A short-circuit `and` / `or`.
    Logical { left: Box<Expr>, right: Box<Expr>, op: Token },
    /// A reference to a name.
    Variable { name: Token },
    /// A binding or reassignment of `left`.
    Assign { init: bool, public: bool, mutable: bool, token: Token, left: Box<Expr>, right: Box<Expr> },
    /// A call.
    Call { callee: Box<Expr>, args: Vec<CallArg>, token: Token },
    /// Member access, `instance.value`.
    Get { instance: Box<Expr>, value: Box<Expr>, token: Token },
    /// Assignment of `value` to the member `member` of `instance`. `token`
    /// is the member's name where the member is a bare name, and the `.` of
    /// the access otherwise.
    SetMember { instance: Box<Expr>, member: Box<Expr>, token: Token, value: Box<Expr> },
    /// A function; without a name it is a lambda, with `rest` it is variadic.
    Func { public: bool, name: Option<Token>, params: Vec<Token>, rest: Option<Token>, body: Box<Expr> },
    /// A `match`; the branches are tried in order.
    Match { token: Token, condition: Box<Expr>, branches: Vec<MatchBranch> },
    /// A sequence of expressions in braces.
    Block { token: Token, exprs: Vec<Box<Expr>> },
    /// `unsafe expr`.
    Unsafe { token: Token, expr: Box<Expr> },
    /// A shell escape, `$ expr`.
    Shell { token: Token, expr: Box<Expr> },
    /// Marks the end of a stream of nodes; no syntax produces it.
    End,
}

/// One branch of a `match`: a pattern and the body it selects.
#[derive(Debug, PartialEq)]
pub struct MatchBranch {
    pub target: Box<Expr>,
    pub body: Box<Expr>,
}

/// One argument of a call.
#[derive(Debug, PartialEq)]
pub enum CallArg {
    /// An ordinary argument.
    Positional(Box<Expr>),
    /// An argument spread with `...`.
    Unpacking(Box<Expr>),
}

/// The mathematical value of an [`Expr`].
#[allow(inconsistent_fields)]
pub enum ExprView {
    Binary { left: Box<ExprView>, right: Box<ExprView>, op: TokenView },
    Group { expr: Box<ExprView> },
    Unary { right: Box<ExprView>, op: TokenView },
    StringLiteral { token: TokenView, value: Seq<char> },
    FloatLiteral { token: TokenView, value: Seq<char> },
    IntegerLiteral { token: TokenView, value: i64 },
    BoolLiteral { token: TokenView, payload: bool },
    AtomLiteral { token: TokenView, value: Seq<char> },
    Underscore { token: TokenView },
    Null { token: TokenView },
    ListLiteral { token: TokenView, values: Seq<ExprView> },
    ObjectLiteral { token: TokenView, keys: Seq<TokenView>, values: Seq<ExprView> },
    Logical { left: Box<ExprView>, right: Box<ExprView>, op: TokenView },
    Variable { name: TokenView },
    Assign {
        init: bool,
        public: bool,
        mutable: bool,
        token: TokenView,
        left: Box<ExprView>,
        right: Box<ExprView>,
    },
    Call { callee: Box<ExprView>, args: Seq<CallArgView>, token: TokenView },
    Get { instance: Box<ExprView>, value: Box<ExprView>, token: TokenView },
    SetMember {
        instance: Box<ExprView>,
        member: Box<ExprView>,
        token: TokenView,
        value: Box<ExprView>,
    },
    Func {
        public: bool,
        name: Option<TokenView>,
        params: Seq<TokenView>,
        rest: Option<TokenView>,
        body: Box<ExprView>,
    },
    Match { token: TokenView, condition: Box<ExprView>, branches: Seq<MatchBranchView> },
    Block { token: TokenView, exprs: Seq<ExprView> },
    Unsafe { token: TokenView, expr: Box<ExprView> },
    Shell { token: TokenView, expr: Box<ExprView> },
    End,
}

/// The mathematical value of a [`MatchBranch`].
pub struct MatchBranchView {
    pub target: ExprView,
    pub body: ExprView,
}

/// The mathematical value of a [`CallArg`].
pub enum CallArgView {
    Positional(ExprView),
    Unpacking(ExprView),
}

/// The view of an optional token.
pub open spec fn optional_token_view(token: Option<Token>) -> Option<TokenView> {
    match token {
        Some(t) => Some(t@),
        None => None,
    }
}

impl Expr {
    /// The tree that this node stands for.
    pub open spec fn model(&self) -> ExprView
        decreases self,
    {
        match self {
            Expr::Binary { left, right, op } => ExprView::Binary {
                left: Box::new(left.model()),
                right: Box::new(right.model()),
                op: op@,
            },
            Expr::Group { expr } => ExprView::Group { expr: Box::new(expr.model()) },
            Expr::Unary { right, op } => ExprView::Unary { right: Box::new(right.model()), op: op@ },
            Expr::StringLiteral { token, value } => ExprView::StringLiteral {
                token: token@,
                value: value@,
            },
            Expr::FloatLiteral { token, value } => ExprView::FloatLiteral {
                token: token@,
                value: value@,
            },
            Expr::IntegerLiteral { token, value } => ExprView::IntegerLiteral {
                token: token@,
                value: *value,
            },
            Expr::BoolLiteral { token, payload } => ExprView::BoolLiteral {
                token: token@,
                payload: *payload,
            },
            Expr::AtomLiteral { token, value } => ExprView::AtomLiteral {
                token: token@,
                value: value@,
            },
            Expr::Underscore { token } => ExprView::Underscore { token: token@ },
            Expr::Null { token } => ExprView::Null { token: token@ },
            Expr::ListLiteral { token, values } => ExprView::ListLiteral {
                token: token@,
                values: models(values@),
            },
            Expr::ObjectLiteral { token, keys, values } => ExprView::ObjectLiteral {
                token: token@,
                keys: token_views(keys@),
                values: models(values@),
            },
            Expr::Logical { left, right, op } => ExprView::Logical {
                left: Box::new(left.model()),
                right: Box::new(right.model()),
                op: op@,
            },
            Expr::Variable { name } => ExprView::Variable { name: name@ },
            Expr::Assign { init, public, mutable, token, left, right } => ExprView::Assign {
                init: *init,
                public: *public,
                mutable: *mutable,
                token: token@,
                left: Box::new(left.model()),
                right: Box::new(right.model()),
            },
            Expr::Call { callee, args, token } => ExprView::Call {
                callee: Box::new(callee.model()),
                args: arg_models(args@),
                token: token@,
            },
            Expr::Get { instance, value, token } => ExprView::Get {
                instance: Box::new(instance.model()),
                value: Box::new(value.model()),
                token: token@,
            },
            Expr::SetMember { instance, member, token, value } => ExprView::SetMember {
                instance: Box::new(instance.model()),
                member: Box::new(member.model()),
                token: token@,
                value: Box::new(value.model()),
            },
            Expr::Func { public, name, params, rest, body } => ExprView::Func {
                public: *public,
                name: optional_token_view(*name),
                params: token_views(params@),
                rest: optional_token_view(*rest),
                body: Box::new(body.model()),
            },
            Expr::Match { token, condition, branches } => ExprView::Match {
                token: token@,
                condition: Box::new(condition.model()),
                branches: branch_models(branches@),
            },
            Expr::Block { token, exprs } => ExprView::Block { token: token@, exprs: models(exprs@) },
            Expr::Unsafe { token, expr } => ExprView::Unsafe {
                token: token@,
                expr: Box::new(expr.model()),
            },
            Expr::Shell { token, expr } => ExprView::Shell {
                token: token@,
                expr: Box::new(expr.model()),
            },
            Expr::End => ExprView::End,
        }
    }

    /// A copy of the whole tree, sharing nothing with this one.
    pub fn deep_copy(&self) -> (copy: Expr)
        ensures
            copy@ == self@,
        decreases self,
    {
        match self {
            Expr::Binary { left, right, op } => Expr::Binary {
                left: Box::new(left.deep_copy()),
                right: Box::new(right.deep_copy()),
                op: op.clone(),
            },
            Expr::Group { expr } => Expr::Group { expr: Box::new(expr.deep_copy()) },
            Expr::Unary { right, op } => Expr::Unary {
                right: Box::new(right.deep_copy()),
                op: op.clone(),
            },
            Expr::StringLiteral { token, value } => Expr::StringLiteral {
                token: token.clone(),
                value: value.clone(),
            },
            Expr::FloatLiteral { token, value } => Expr::FloatLiteral {
                token: token.clone(),
                value: value.clone(),
            },
            Expr::IntegerLiteral { token, value } => Expr::IntegerLiteral {
                token: token.clone(),
                value: *value,
            },
            Expr::BoolLiteral { token, payload } => Expr::BoolLiteral {
                token: token.clone(),
                payload: *payload,
            },
            Expr::AtomLiteral { token, value } => Expr::AtomLiteral {
                token: token.clone(),
                value: value.clone(),
            },
            Expr::Underscore { token } => Expr::Underscore { token: token.clone() },
            Expr::Null { token } => Expr::Null { token: token.clone() },
            Expr::ListLiteral { token, values } => Expr::ListLiteral {
                token: token.clone(),
                values: copy_exprs(values),
            },
            Expr::ObjectLiteral { token, keys, values } => Expr::ObjectLiteral {
                token: token.clone(),
                keys: clone_tokens(keys),
                values: copy_exprs(values),
            },
            Expr::Logical { left, right, op } => Expr::Logical {
                left: Box::new(left.deep_copy()),
                right: Box::new(right.deep_copy()),
                op: op.clone(),
            },
            Expr::Variable { name } => Expr::Variable { name: name.clone() },
            Expr::Assign { init, public, mutable, token, left, right } => Expr::Assign {
                init: *init,
                public: *public,
                mutable: *mutable,
                token: token.clone(),
                left: Box::new(left.deep_copy()),
                right: Box::new(right.deep_copy()),
            },
            Expr::Call { callee, args, token } => Expr::Call {
                callee: Box::new(callee.deep_copy()),
                args: copy_args(args),
                token: token.clone(),
            },
            Expr::Get { instance, value, token } => Expr::Get {
                instance: Box::new(instance.deep_copy()),
                value: Box::new(value.deep_copy()),
                token: token.clone(),
            },
            Expr::SetMember { instance, member, token, value } => Expr::SetMember {
                instance: Box::new(instance.deep_copy()),
                member: Box::new(member.deep_copy()),
                token: token.clone(),
                value: Box::new(value.deep_copy()),
            },
            Expr::Func { public, name, params, rest, body } => Expr::Func {
                public: *public,
                name: clone_optional_token(name),
                params: clone_tokens(params),
                rest: clone_optional_token(rest),
                body: Box::new(body.deep_copy()),
            },
            Expr::Match { token, condition, branches } => Expr::Match {
                token: token.clone(),
                condition: Box::new(condition.deep_copy()),
                branches: copy_branches(branches),
            },
            Expr::Block { token, exprs } => Expr::Block {
                token: token.clone(),
                exprs: copy_exprs(exprs),
            },
            Expr::Unsafe { token, expr } => Expr::Unsafe {
                token: token.clone(),
                expr: Box::new(expr.deep_copy()),
            },
            Expr::Shell { token, expr } => Expr::Shell {
                token: token.clone(),
                expr: Box::new(expr.deep_copy()),
            },
            Expr::End => Expr::End,
        }
    }
}

impl Expr {
    /// A reference to the name `name`.
    pub fn variable(name: Token) -> (e: Expr)
        ensures
            e@ == (ExprView::Variable { name: name@ }),
    {
        Expr::Variable { name }
    }

    /// The integer literal `value`, read from `token`.
    pub fn integer(token: Token, value: i64) -> (e: Expr)
        ensures
            e@ == (ExprView::IntegerLiteral { token: token@, value }),
    {
        Expr::IntegerLiteral { token, value }
    }

    /// The boolean literal `payload`, read from `token`.
    pub fn boolean(token: Token, payload: bool) -> (e: Expr)
        ensures
            e@ == (ExprView::BoolLiteral { token: token@, payload }),
    {
        Expr::BoolLiteral { token, payload }
    }

    /// The placeholder `_`, read from `token`.
    pub fn underscore(token: Token) -> (e: Expr)
        ensures
            e@ == (ExprView::Underscore { token: token@ }),
    {
        Expr::Underscore { token }
    }

    /// `null`, read from `token`.
    pub fn null(token: Token) -> (e: Expr)
        ensures
            e@ == (ExprView::Null { token: token@ }),
    {
        Expr::Null { token }
    }

    /// The operation `left op right`.
    pub fn binary(left: Expr, right: Expr, op: Token) -> (e: Expr)
        ensures
            e@ == (ExprView::Binary { left: Box::new(left@), right: Box::new(right@), op: op@ }),
    {
        Expr::Binary { left: Box::new(left), right: Box::new(right), op }
    }

    /// The binding or assignment of `right` to `left`.
    pub fn assign(init: bool, public: bool, mutable: bool, token: Token, left: Expr, right: Expr) -> (e:
        Expr)
        ensures
            e@ == (ExprView::Assign {
                init,
                public,
                mutable,
                token: token@,
                left: Box::new(left@),
                right: Box::new(right@),
            }),
    {
        Expr::Assign { init, public, mutable, token, left: Box::new(left), right: Box::new(right) }
    }

    /// The call of `callee` on `args`.
    pub fn call(callee: Expr, args: Vec<CallArg>, token: Token) -> (e: Expr)
        ensures
            e@ == (ExprView::Call {
                callee: Box::new(callee@),
                args: arg_models(args@),
                token: token@,
            }),
    {
        Expr::Call { callee: Box::new(callee), args, token }
    }

    /// The match on `condition` with the given branches.
    pub fn matching(token: Token, condition: Expr, branches: Vec<MatchBranch>) -> (e: Expr)
        ensures
            e@ == (ExprView::Match {
                token: token@,
                condition: Box::new(condition@),
                branches: branch_models(branches@),
            }),
    {
        Expr::Match { token, condition: Box::new(condition), branches }
    }

    /// The lambda with the given parameters and body.
    pub fn lambda(params: Vec<Token>, rest: Option<Token>, body: Expr) -> (e: Expr)
        ensures
            e@ == (ExprView::Func {
                public: false,
                name: None,
                params: token_views(params@),
                rest: optional_token_view(rest),
                body: Box::new(body@),
            }),
    {
        Expr::Func { public: false, name: None, params, rest, body: Box::new(body) }
    }
}

impl View for Expr {
    type V = ExprView;

    open spec fn view(&self) -> ExprView {
        self.model()
    }
}

impl Clone for Expr {
    fn clone(&self) -> (copy: Self)
        ensures
            copy@ == self@,
    {
        self.deep_copy()
    }
}

impl MatchBranch {
    /// The branch that this value stands for.
    pub open spec fn model(&self) -> MatchBranchView
        decreases self,
    {
        MatchBranchView { target: self.target.model(), body: self.body.model() }
    }
}

impl MatchBranch {
    /// The branch `target -> body`.
    pub fn new(target: Expr, body: Expr) -> (branch: MatchBranch)
        ensures
            branch@ == (MatchBranchView { target: target@, body: body@ }),
    {
        MatchBranch { target: Box::new(target), body: Box::new(body) }
    }
}

impl View for MatchBranch {
    type V = MatchBranchView;

    open spec fn view(&self) -> MatchBranchView {
        self.model()
    }
}

impl Clone for MatchBranch {
    fn clone(&self) -> (copy: Self)
        ensures
            copy@ == self@,
    {
        MatchBranch { target: Box::new(self.target.deep_copy()), body: Box::new(self.body.deep_copy()) }
    }
}

impl CallArg {
    /// The argument that this value stands for.
    pub open spec fn model(&self) -> CallArgView
        decreases self,
    {
        match self {
            CallArg::Positional(e) => CallArgView::Positional(e.model()),
            CallArg::Unpacking(e) => CallArgView::Unpacking(e.model()),
        }
    }
}

impl CallArg {
    /// The ordinary argument `e`.
    pub fn positional(e: Expr) -> (arg: CallArg)
        ensures
            arg@ == CallArgView::Positional(e@),
    {
        CallArg::Positional(Box::new(e))
    }

    /// The spread argument `...e`.
    pub fn unpacking(e: Expr) -> (arg: CallArg)
        ensures
            arg@ == CallArgView::Unpacking(e@),
    {
        CallArg::Unpacking(Box::new(e))
    }
}

impl View for CallArg {
    type V = CallArgView;

    open spec fn view(&self) -> CallArgView {
        self.model()
    }
}

impl Clone for CallArg {
    fn clone(&self) -> (copy: Self)
        ensures
            copy@ == self@,
    {
        match self {
            CallArg::Positional(e) => CallArg::Positional(Box::new(e.deep_copy())),
            CallArg::Unpacking(e) => CallArg::Unpacking(Box::new(e.deep_copy())),
        }
    }
}

/// The trees of a run of boxed nodes, in order.
pub open spec fn models(exprs: Seq<Box<Expr>>) -> Seq<ExprView>
    decreases exprs,
{
    Seq::new(
        exprs.len(),
        |i: int|
            if 0 <= i < exprs.len() {
                exprs[i].model()
            } else {
                ExprView::End
            },
    )
}

/// The trees of a run of nodes, in order.
pub open spec fn expr_views(exprs: Seq<Expr>) -> Seq<ExprView> {
    Seq::new(exprs.len(), |i: int| exprs[i]@)
}

/// The values of a run of call arguments, in order.
pub open spec fn arg_models(args: Seq<CallArg>) -> Seq<CallArgView>
    decreases args,
{
    Seq::new(
        args.len(),
        |i: int|
            if 0 <= i < args.len() {
                args[i].model()
            } else {
                CallArgView::Positional(ExprView::End)
            },
    )
}

/// The values of a run of match branches, in order.
pub open spec fn branch_models(branches: Seq<MatchBranch>) -> Seq<MatchBranchView>
    decreases branches,
{
    Seq::new(
        branches.len(),
        |i: int|
            if 0 <= i < branches.len() {
                branches[i].model()
            } else {
                MatchBranchView { target: ExprView::End, body: ExprView::End }
            },
    )
}

/// Appending a node appends its tree.
pub proof fn lemma_models_push(exprs: Seq<Box<Expr>>, e: Box<Expr>)
    ensures
        models(exprs.push(e)) == models(exprs).push(e.model()),
{
    assert(models(exprs.push(e)) =~= models(exprs).push(e.model()));
}

/// Appending a node to a run of unboxed nodes appends its tree.
pub proof fn lemma_expr_views_push(exprs: Seq<Expr>, e: Expr)
    ensures
        expr_views(exprs.push(e)) == expr_views(exprs).push(e@),
{
    assert(expr_views(exprs.push(e)) =~= expr_views(exprs).push(e@));
}

/// Appending an argument appends its value.
pub proof fn lemma_arg_models_push(args: Seq<CallArg>, a: CallArg)
    ensures
        arg_models(args.push(a)) == arg_models(args).push(a.model()),
{
    assert(arg_models(args.push(a)) =~= arg_models(args).push(a.model()));
}

/// Appending a branch appends its value.
pub proof fn lemma_branch_models_push(branches: Seq<MatchBranch>, b: MatchBranch)
    ensures
        branch_models(branches.push(b)) == branch_models(branches).push(b.model()),
{
    assert(branch_models(branches.push(b)) =~= branch_models(branches).push(b.model()));
}

/// Appending a token appends its view.
pub proof fn lemma_token_views_push(tokens: Seq<Token>, t: Token)
    ensures
        token_views(tokens.push(t)) == token_views(tokens).push(t@),
{
    assert(token_views(tokens.push(t)) =~= token_views(tokens).push(t@));
}

fn clone_optional_token(token: &Option<Token>) -> (copy: Option<Token>)
    ensures
        copy == *token,
{
    match token {
        Some(t) => Some(t.clone()),
        None => None,
    }
}

fn copy_exprs(exprs: &Vec<Box<Expr>>) -> (copy: Vec<Box<Expr>>)
    ensures
        models(copy@) == models(exprs@),
    decreases exprs,
{
    let mut copy: Vec<Box<Expr>> = Vec::new();
    let mut i: usize = 0;
    while i < exprs.len()
        invariant
            i <= exprs.len(),
            copy.len() == i,
            forall|j: int| 0 <= j < i ==> copy@[j].model() == exprs@[j].model(),
        decreases exprs.len() - i,
    {
        let e = exprs[i].deep_copy();
        copy.push(Box::new(e));
        i = i + 1;
    }
    assert(models(copy@) =~= models(exprs@));
    copy
}

fn copy_args(args: &Vec<CallArg>) -> (copy: Vec<CallArg>)
    ensures
        arg_models(copy@) == arg_models(args@),
    decreases args,
{
    let mut copy: Vec<CallArg> = Vec::new();
    let mut i: usize = 0;
    while i < args.len()
        invariant
            i <= args.len(),
            copy.len() == i,
            forall|j: int| 0 <= j < i ==> copy@[j].model() == args@[j].model(),
        decreases args.len() - i,
    {
        let a = match &args[i] {
            CallArg::Positional(e) => CallArg::Positional(Box::new(e.deep_copy())),
            CallArg::Unpacking(e) => CallArg::Unpacking(Box::new(e.deep_copy())),
        };
        copy.push(a);
        i = i + 1;
    }
    assert(arg_models(copy@) =~= arg_models(args@));
    copy
}

fn copy_branches(branches: &Vec<MatchBranch>) -> (copy: Vec<MatchBranch>)
    ensures
        branch_models(copy@) == branch_models(branches@),
    decreases branches,
{
    let mut copy: Vec<MatchBranch> = Vec::new();
    let mut i: usize = 0;
    while i < branches.len()
        invariant
            i <= branches.len(),
            copy.len() == i,
            forall|j: int| 0 <= j < i ==> copy@[j].model() == branches@[j].model(),
        decreases branches.len() - i,
    {
        let b = &branches[i];
        let c = MatchBranch {
            target: Box::new(b.target.deep_copy()),
            body: Box::new(b.body.deep_copy()),
        };
        copy.push(c);
        i = i + 1;
    }
    assert(branch_models(copy@) =~= branch_models(branches@));
    copy
}

} // verus!
