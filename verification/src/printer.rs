//! The canonical text of a syntax tree.

use vstd::prelude::*;
use vstd::string::*;
use crate::ast::{
    arg_models, branch_models, expr_views, models, CallArg, CallArgView, Expr, ExprView,
    MatchBranch, MatchBranchView,
};
use crate::text::{join, lemma_join_next, push_signed_decimal, signed_decimal};
use crate::token::{kind_name, token_views, Token, TokenType, TokenView};

verus! {

/// The printed form of each token of a run.
pub open spec fn token_texts(tokens: Seq<TokenView>) -> Seq<Seq<char>> {
    Seq::new(tokens.len(), |i: int| tokens[i].text())
}

/// How the rest parameter of a named function is printed after the other
/// parameters.
pub open spec fn rest_text(params: Seq<TokenView>, rest: Option<TokenView>) -> Seq<char> {
    match rest {
        Some(r) => if params.len() > 0 {
            " "@ + r.text() + "+"@
        } else {
            r.text() + "+"@
        },
        None => Seq::empty(),
    }
}

/// The letters that follow `assign`: `P` for public, `I` for an initial
/// binding, `M` for mutable, in this order.
pub open spec fn flag_text(public: bool, init: bool, mutable: bool) -> Seq<char> {
    (if public { "P"@ } else { Seq::empty() }) + (if init { "I"@ } else { Seq::empty() }) + (if mutable {
        "M"@
    } else {
        Seq::empty()
    })
}

/// The canonical text of a tree.
pub open spec fn render(e: ExprView) -> Seq<char>
    decreases e,
{
    match e {
        ExprView::Binary { left, right, op } => "("@ + op.text() + " "@ + render(*left) + " "@
            + render(*right) + ")"@,
        ExprView::Group { expr } => "("@ + render(*expr) + ")"@,
        ExprView::Unary { right, op } => "("@ + op.text() + " "@ + render(*right) + ")"@,
        ExprView::StringLiteral { token, value } => "\""@ + value + "\""@,
        ExprView::FloatLiteral { token, value } => value,
        ExprView::IntegerLiteral { token, value } => signed_decimal(value as int),
        ExprView::BoolLiteral { token, payload } => if payload {
            "true"@
        } else {
            "false"@
        },
        ExprView::AtomLiteral { token, value } => ":"@ + value,
        ExprView::Underscore { token } => ":_:"@,
        ExprView::Null { token } => "null"@,
        ExprView::ListLiteral { token, values } => if values.len() > 0 {
            "(list "@ + join(renders(values), " "@) + ")"@
        } else {
            "(list)"@
        },
        ExprView::ObjectLiteral { token, keys, values } => if keys.len() > 0 {
            "(object "@ + join(render_entries(keys, values), " "@) + ")"@
        } else {
            "(object)"@
        },
        ExprView::Logical { left, right, op } => "("@ + op.text() + " "@ + render(*left) + " "@
            + render(*right) + ")"@,
        ExprView::Variable { name } => name.text(),
        ExprView::Assign { init, public, mutable, token, left, right } => "(assign"@ + flag_text(
            public,
            init,
            mutable,
        ) + " "@ + render(*left) + " "@ + render(*right) + ")"@,
        ExprView::Call { callee, args, token } => if args.len() > 0 {
            "("@ + render(*callee) + " "@ + join(render_args(args), " "@) + ")"@
        } else {
            "("@ + render(*callee) + ")"@
        },
        ExprView::Get { instance, value, token } => render(*instance) + "."@ + render(*value),
        ExprView::SetMember { instance, member, token, value } => "(set "@ + render(*instance)
            + "."@ + render(*member) + " "@ + render(*value) + ")"@,
        ExprView::Func { public, name, params, rest, body } => match name {
            Some(n) => "(func"@ + (if public {
                " [public]"@
            } else {
                Seq::empty()
            }) + " "@ + n.text() + " ("@ + join(token_texts(params), " "@) + rest_text(params, rest)
                + ") "@ + render(*body) + ")"@,
            None => "(lambda ("@ + join(token_texts(params), " "@) + ") "@ + render(*body) + ")"@,
        },
        ExprView::Match { token, condition, branches } => if branches.len() > 0 {
            "(match "@ + render(*condition) + " "@ + join(render_branches(branches), " "@) + ")"@
        } else {
            "(match "@ + render(*condition) + ")"@
        },
        ExprView::Block { token, exprs } => if join(renders(exprs), " "@).len() == 0 {
            "(block)"@
        } else {
            "(block "@ + join(renders(exprs), " "@) + ")"@
        },
        ExprView::Unsafe { token, expr } => "(unsafe "@ + render(*expr) + ")"@,
        ExprView::Shell { token, expr } => "(shell_op "@ + render(*expr) + ")"@,
        ExprView::End => Seq::empty(),
    }
}

/// The text of each tree of a run.
pub open spec fn renders(items: Seq<ExprView>) -> Seq<Seq<char>>
    decreases items,
{
    Seq::new(
        items.len(),
        |i: int|
            if 0 <= i < items.len() {
                render(items[i])
            } else {
                Seq::empty()
            },
    )
}

/// The text of a call argument: a spread argument follows `...`.
pub open spec fn render_arg(arg: CallArgView) -> Seq<char>
    decreases arg,
{
    match arg {
        CallArgView::Positional(e) => render(e),
        CallArgView::Unpacking(e) => "..."@ + render(e),
    }
}

/// The text of each argument of a run.
pub open spec fn render_args(args: Seq<CallArgView>) -> Seq<Seq<char>>
    decreases args,
{
    Seq::new(
        args.len(),
        |i: int|
            if 0 <= i < args.len() {
                render_arg(args[i])
            } else {
                Seq::empty()
            },
    )
}

/// The text of a match branch: `target -> body`.
pub open spec fn render_branch(branch: MatchBranchView) -> Seq<char>
    decreases branch,
{
    render(branch.target) + " -> "@ + render(branch.body)
}

/// The text of each branch of a run.
pub open spec fn render_branches(branches: Seq<MatchBranchView>) -> Seq<Seq<char>>
    decreases branches,
{
    Seq::new(
        branches.len(),
        |i: int|
            if 0 <= i < branches.len() {
                render_branch(branches[i])
            } else {
                Seq::empty()
            },
    )
}

/// The entries of an object, `key:value`, as far as both a key and a value
/// exist.
pub open spec fn render_entries(keys: Seq<TokenView>, values: Seq<ExprView>) -> Seq<Seq<char>>
    decreases values,
{
    Seq::new(
        if keys.len() <= values.len() {
            keys.len()
        } else {
            values.len()
        },
        |i: int|
            if 0 <= i < values.len() {
                keys[i].text() + ":"@ + render(values[i])
            } else {
                Seq::empty()
            },
    )
}

fn write_token(token: &Token, out: &mut String)
    ensures
        final(out)@ == old(out)@ + token@.text(),
{
    if token.kind == TokenType::Id {
        out.append(token.lexeme.as_str());
    } else {
        out.append(kind_name(token.kind));
    }
}

fn print_tokens(tokens: &Vec<Token>) -> (text: String)
    ensures
        text@ == join(token_texts(token_views(tokens@)), " "@),
{
    let mut out = String::new();
    let ghost parts = token_texts(token_views(tokens@));
    let mut i: usize = 0;
    assert(parts.take(0) =~= Seq::<Seq<char>>::empty());
    while i < tokens.len()
        invariant
            i <= tokens.len(),
            parts == token_texts(token_views(tokens@)),
            out@ == join(parts.take(i as int), " "@),
        decreases tokens.len() - i,
    {
        if i > 0 {
            out.append(" ");
        }
        write_token(&tokens[i], &mut out);
        proof {
            lemma_join_next(parts, " "@, i as int);
            assert(out@ =~= join(parts.take(i + 1), " "@));
        }
        i = i + 1;
    }
    assert(parts.take(tokens.len() as int) =~= parts);
    out
}

fn enclose(open: &str, inner: &str, close: &str) -> (text: String)
    ensures
        text@ == open@ + inner@ + close@,
{
    let mut out = String::from_str(open);
    out.append(inner);
    out.append(close);
    out
}

fn enclose_pair(open: &str, first: &str, between: &str, second: &str, close: &str) -> (text: String)
    ensures
        text@ == open@ + first@ + between@ + second@ + close@,
{
    let mut out = String::from_str(open);
    out.append(first);
    out.append(between);
    out.append(second);
    out.append(close);
    out
}

fn operation_text(op: &Token, left: &str, right: &str) -> (text: String)
    ensures
        text@ == "("@ + op@.text() + " "@ + left@ + " "@ + right@ + ")"@,
{
    let mut out = String::from_str("(");
    write_token(op, &mut out);
    out.append(" ");
    out.append(left);
    out.append(" ");
    out.append(right);
    out.append(")");
    out
}

fn unary_text(op: &Token, right: &str) -> (text: String)
    ensures
        text@ == "("@ + op@.text() + " "@ + right@ + ")"@,
{
    let mut out = String::from_str("(");
    write_token(op, &mut out);
    out.append(" ");
    out.append(right);
    out.append(")");
    out
}

fn assign_text(public: bool, init: bool, mutable: bool, left: &str, right: &str) -> (text: String)
    ensures
        text@ == "(assign"@ + flag_text(public, init, mutable) + " "@ + left@ + " "@ + right@ + ")"@,
{
    let mut flags = String::new();
    if public {
        flags.append("P");
    }
    if init {
        flags.append("I");
    }
    if mutable {
        flags.append("M");
    }
    assert(flags@ =~= flag_text(public, init, mutable));
    let mut out = String::from_str("(assign");
    out.append(flags.as_str());
    out.append(" ");
    out.append(left);
    out.append(" ");
    out.append(right);
    out.append(")");
    out
}

fn set_text(instance: &str, member: &str, value: &str) -> (text: String)
    ensures
        text@ == "(set "@ + instance@ + "."@ + member@ + " "@ + value@ + ")"@,
{
    let mut out = String::from_str("(set ");
    out.append(instance);
    out.append(".");
    out.append(member);
    out.append(" ");
    out.append(value);
    out.append(")");
    out
}

fn func_text(public: bool, name: &Token, params: &Vec<Token>, rest: &Option<Token>, body: &str) -> (text:
    String)
    ensures
        text@ == "(func"@ + (if public {
            " [public]"@
        } else {
            Seq::empty()
        }) + " "@ + name@.text() + " ("@ + join(token_texts(token_views(params@)), " "@) + rest_text(
            token_views(params@),
            crate::ast::optional_token_view(*rest),
        ) + ") "@ + body@ + ")"@,
{
    let mut tail = String::new();
    match rest {
        Some(r) => {
            if params.len() > 0 {
                tail.append(" ");
            }
            write_token(r, &mut tail);
            tail.append("+");
        },
        None => {},
    }
    assert(tail@ =~= rest_text(token_views(params@), crate::ast::optional_token_view(*rest)));
    let mut out = String::from_str("(func");
    if public {
        out.append(" [public]");
    }
    assert(out@ =~= "(func"@ + (if public {
        " [public]"@
    } else {
        Seq::empty()
    }));
    out.append(" ");
    write_token(name, &mut out);
    out.append(" (");
    out.append(print_tokens(params).as_str());
    out.append(tail.as_str());
    out.append(") ");
    out.append(body);
    out.append(")");
    out
}

fn print_exprs(items: &Vec<Box<Expr>>) -> (text: String)
    ensures
        text@ == join(renders(models(items@)), " "@),
    decreases items,
{
    let mut out = String::new();
    let ghost parts = renders(models(items@));
    let mut i: usize = 0;
    assert(parts.take(0) =~= Seq::<Seq<char>>::empty());
    while i < items.len()
        invariant
            i <= items.len(),
            parts == renders(models(items@)),
            out@ == join(parts.take(i as int), " "@),
        decreases items.len() - i,
    {
        if i > 0 {
            out.append(" ");
        }
        let item = items[i].print();
        out.append(item.as_str());
        proof {
            lemma_join_next(parts, " "@, i as int);
            assert(out@ =~= join(parts.take(i + 1), " "@));
        }
        i = i + 1;
    }
    assert(parts.take(items.len() as int) =~= parts);
    out
}

fn print_args(args: &Vec<CallArg>) -> (text: String)
    ensures
        text@ == join(render_args(arg_models(args@)), " "@),
    decreases args,
{
    let mut out = String::new();
    let ghost parts = render_args(arg_models(args@));
    let mut i: usize = 0;
    assert(parts.take(0) =~= Seq::<Seq<char>>::empty());
    while i < args.len()
        invariant
            i <= args.len(),
            parts == render_args(arg_models(args@)),
            out@ == join(parts.take(i as int), " "@),
        decreases args.len() - i,
    {
        if i > 0 {
            out.append(" ");
        }
        match &args[i] {
            CallArg::Positional(e) => {
                let item = e.print();
                out.append(item.as_str());
            },
            CallArg::Unpacking(e) => {
                let item = e.print();
                out.append("...");
                out.append(item.as_str());
            },
        }
        proof {
            lemma_join_next(parts, " "@, i as int);
            assert(out@ =~= join(parts.take(i + 1), " "@));
        }
        i = i + 1;
    }
    assert(parts.take(args.len() as int) =~= parts);
    out
}

fn print_branches(branches: &Vec<MatchBranch>) -> (text: String)
    ensures
        text@ == join(render_branches(branch_models(branches@)), " "@),
    decreases branches,
{
    let mut out = String::new();
    let ghost parts = render_branches(branch_models(branches@));
    let mut i: usize = 0;
    assert(parts.take(0) =~= Seq::<Seq<char>>::empty());
    while i < branches.len()
        invariant
            i <= branches.len(),
            parts == render_branches(branch_models(branches@)),
            out@ == join(parts.take(i as int), " "@),
        decreases branches.len() - i,
    {
        if i > 0 {
            out.append(" ");
        }
        let branch = &branches[i];
        let target = branch.target.print();
        let body = branch.body.print();
        out.append(target.as_str());
        out.append(" -> ");
        out.append(body.as_str());
        proof {
            lemma_join_next(parts, " "@, i as int);
            assert(out@ =~= join(parts.take(i + 1), " "@));
        }
        i = i + 1;
    }
    assert(parts.take(branches.len() as int) =~= parts);
    out
}

fn print_entries(keys: &Vec<Token>, values: &Vec<Box<Expr>>) -> (text: String)
    ensures
        text@ == join(render_entries(token_views(keys@), models(values@)), " "@),
    decreases values,
{
    let mut out = String::new();
    let ghost parts = render_entries(token_views(keys@), models(values@));
    let n = if keys.len() <= values.len() { keys.len() } else { values.len() };
    let mut i: usize = 0;
    assert(parts.take(0) =~= Seq::<Seq<char>>::empty());
    while i < n
        invariant
            i <= n,
            n <= keys.len(),
            n <= values.len(),
            n == parts.len(),
            parts == render_entries(token_views(keys@), models(values@)),
            out@ == join(parts.take(i as int), " "@),
        decreases n - i,
    {
        if i > 0 {
            out.append(" ");
        }
        let value = values[i].print();
        write_token(&keys[i], &mut out);
        out.append(":");
        out.append(value.as_str());
        proof {
            lemma_join_next(parts, " "@, i as int);
            assert(out@ =~= join(parts.take(i + 1), " "@));
        }
        i = i + 1;
    }
    assert(parts.take(n as int) =~= parts);
    out
}

impl Expr {
    /// The canonical text of this tree.
    pub fn print(&self) -> (text: String)
        ensures
            text@ == render(self@),
        decreases self,
    {
        match self {
            Expr::Binary { left, right, op } => operation_text(
                op,
                left.print().as_str(),
                right.print().as_str(),
            ),
            Expr::Group { expr } => enclose("(", expr.print().as_str(), ")"),
            Expr::Unary { right, op } => unary_text(op, right.print().as_str()),
            Expr::StringLiteral { token, value } => enclose("\"", value.as_str(), "\""),
            Expr::FloatLiteral { token, value } => value.clone(),
            Expr::IntegerLiteral { token, value } => {
                let mut out = String::new();
                push_signed_decimal(&mut out, *value);
                assert(out@ =~= signed_decimal(*value as int));
                out
            },
            Expr::BoolLiteral { token, payload } => if *payload {
                String::from_str("true")
            } else {
                String::from_str("false")
            },
            Expr::AtomLiteral { token, value } => {
                let mut out = String::from_str(":");
                out.append(value.as_str());
                out
            },
            Expr::Underscore { token } => String::from_str(":_:"),
            Expr::Null { token } => String::from_str("null"),
            Expr::ListLiteral { token, values } => if values.len() > 0 {
                enclose("(list ", print_exprs(values).as_str(), ")")
            } else {
                String::from_str("(list)")
            },
            Expr::ObjectLiteral { token, keys, values } => if keys.len() > 0 {
                enclose("(object ", print_entries(keys, values).as_str(), ")")
            } else {
                String::from_str("(object)")
            },
            Expr::Logical { left, right, op } => operation_text(
                op,
                left.print().as_str(),
                right.print().as_str(),
            ),
            Expr::Variable { name } => name.print(),
            Expr::Assign { init, public, mutable, token, left, right } => assign_text(
                *public,
                *init,
                *mutable,
                left.print().as_str(),
                right.print().as_str(),
            ),
            Expr::Call { callee, args, token } => if args.len() > 0 {
                enclose_pair("(", callee.print().as_str(), " ", print_args(args).as_str(), ")")
            } else {
                enclose("(", callee.print().as_str(), ")")
            },
            Expr::Get { instance, value, token } => {
                let mut out = instance.print();
                out.append(".");
                out.append(value.print().as_str());
                out
            },
            Expr::SetMember { instance, member, token, value } => set_text(
                instance.print().as_str(),
                member.print().as_str(),
                value.print().as_str(),
            ),
            Expr::Func { public, name, params, rest, body } => match name {
                Some(n) => func_text(*public, n, params, rest, body.print().as_str()),
                None => enclose_pair(
                    "(lambda (",
                    print_tokens(params).as_str(),
                    ") ",
                    body.print().as_str(),
                    ")",
                ),
            },
            Expr::Match { token, condition, branches } => if branches.len() > 0 {
                enclose_pair(
                    "(match ",
                    condition.print().as_str(),
                    " ",
                    print_branches(branches).as_str(),
                    ")",
                )
            } else {
                enclose("(match ", condition.print().as_str(), ")")
            },
            Expr::Block { token, exprs } => {
                let inner = print_exprs(exprs);
                if inner.as_str().unicode_len() == 0 {
                    String::from_str("(block)")
                } else {
                    enclose("(block ", inner.as_str(), ")")
                }
            },
            Expr::Unsafe { token, expr } => enclose("(unsafe ", expr.print().as_str(), ")"),
            Expr::Shell { token, expr } => enclose("(shell_op ", expr.print().as_str(), ")"),
            Expr::End => String::new(),
        }
    }

    /// The canonical texts of `exprs`, one per line.
    pub fn pretty_print(exprs: &Vec<Expr>) -> (text: String)
        ensures
            text@ == join(renders(expr_views(exprs@)), "\n"@),
    {
        let mut out = String::new();
        let ghost parts = renders(expr_views(exprs@));
        let mut i: usize = 0;
        assert(parts.take(0) =~= Seq::<Seq<char>>::empty());
        while i < exprs.len()
            invariant
                i <= exprs.len(),
                parts == renders(expr_views(exprs@)),
                out@ == join(parts.take(i as int), "\n"@),
            decreases exprs.len() - i,
        {
            if i > 0 {
                out.append("\n");
            }
            let item = exprs[i].print();
            out.append(item.as_str());
            proof {
                lemma_join_next(parts, "\n"@, i as int);
                assert(out@ =~= join(parts.take(i + 1), "\n"@));
            }
            i = i + 1;
        }
        assert(parts.take(exprs.len() as int) =~= parts);
        out
    }
}

} // verus!
