//! The rules of the grammar, each as a method of the parser. A rule starts
//! at the cursor, consumes the tokens it recognises, and returns the tree
//! or the kind of error; what it returns and where it leaves the cursor
//! is what the rule of the same name in [`crate::grammar`] says.

use vstd::prelude::*;
use crate::ast::{
    arg_models, branch_models, lemma_arg_models_push, lemma_branch_models_push, lemma_models_push,
    lemma_token_views_push, models, optional_token_view, CallArg, CallArgView, Expr, ExprView,
    MatchBranch, MatchBranchView,
};
use crate::error::ErrorKind;
use crate::grammar;
use crate::grammar::{level_rank, DecoratorView, Entries, Level, Signature};
use crate::nodes::{
    args_view, bind, branches_view, clone_optional, combine, compound, decorator_views,
    decorators_view, entries_view, exprs_view, function_node, increment, is_level_operator,
    lemma_decorator_views_push, optional_view, signature_view, ternary_node, try_node, Decorator,
};
use crate::parser::Parser;
use crate::proper::{
    proper_tree, assignment_is_proper, binary_is_proper, block_is_proper, braces_is_proper, call_is_proper, decorated_is_proper, define_macro_is_proper, expression_is_proper, finish_call_is_proper, function_is_proper, group_is_proper, lambda_is_proper, list_literal_is_proper, match_expression_is_proper, object_literal_is_proper, operand_is_proper, primary_is_proper, proper, proper_decorators, proper_optional, proper_result, redefine_macro_is_proper, ternary_is_proper, try_expression_is_proper, unary_is_proper, wrapped_is_proper,
};
use crate::text::{is_float_lexeme, parse_int};
use crate::token::{token_views, Token, TokenType, TokenView};

verus! {

impl Parser {
    /// An expression.
    pub fn expression(&mut self) -> (r: Result<Expr, ErrorKind>)
        ensures
            final(self).follows(
                old(self),
                r,
                grammar::expression(old(self).stream(), old(self).position(), old(self).macro_map()),
            ),
            r is Ok ==> final(self).position() > old(self).position(),
            proper_result(r),
        decreases old(self).remaining(), 40nat,
    {
        proof {
            use_type_invariant(&*self);
            expression_is_proper(self.stream(), self.position(), self.macro_map());
        }
        self.assignment()
    }

    /// An assignment, or what stands below it.
    pub fn assignment(&mut self) -> (r: Result<Expr, ErrorKind>)
        ensures
            final(self).follows(
                old(self),
                r,
                grammar::assignment(old(self).stream(), old(self).position(), old(self).macro_map()),
            ),
            r is Ok ==> final(self).position() > old(self).position(),
            proper_result(r),
        decreases old(self).remaining(), 39nat,
    {
        proof {
            use_type_invariant(&*self);
            assignment_is_proper(self.stream(), self.position(), self.macro_map());
        }
        let target = match self.binary(Level::Or) {
            Ok(e) => e,
            Err(k) => {
                return Err(k);
            },
        };
        let kind = self.kind();
        if kind == TokenType::Equal || kind == TokenType::ColonEq || kind == TokenType::PipeEq || kind
            == TokenType::DollarEq {
            self.bump();
            let value = match self.assignment() {
                Ok(e) => e,
                Err(k) => {
                    return Err(k);
                },
            };
            bind(target, value, kind)
        } else if kind == TokenType::PlusEq || kind == TokenType::MinusEq || kind == TokenType::MulEq
            || kind == TokenType::DivEq || kind == TokenType::ModEq {
            let op = self.take();
            let value = match self.assignment() {
                Ok(e) => e,
                Err(k) => {
                    return Err(k);
                },
            };
            compound(target, value, op)
        } else if kind == TokenType::DPlus || kind == TokenType::DMinus {
            let op = self.take();
            increment(target, op)
        } else {
            Ok(target)
        }
    }

    /// An `or` expression.
    pub fn or_expr(&mut self) -> (r: Result<Expr, ErrorKind>)
        ensures
            final(self).follows(
                old(self),
                r,
                grammar::binary(
                    old(self).stream(),
                    old(self).position(),
                    old(self).macro_map(),
                    Level::Or,
                ),
            ),
            r is Ok ==> final(self).position() > old(self).position(),
            proper_result(r),
    {
        proof {
            use_type_invariant(&*self);
            binary_is_proper(self.stream(), self.position(), self.macro_map(), Level::Or);
        }
        self.binary(Level::Or)
    }

    /// An `and` expression.
    pub fn and_expr(&mut self) -> (r: Result<Expr, ErrorKind>)
        ensures
            final(self).follows(
                old(self),
                r,
                grammar::binary(
                    old(self).stream(),
                    old(self).position(),
                    old(self).macro_map(),
                    Level::And,
                ),
            ),
            r is Ok ==> final(self).position() > old(self).position(),
            proper_result(r),
    {
        proof {
            use_type_invariant(&*self);
            binary_is_proper(self.stream(), self.position(), self.macro_map(), Level::And);
        }
        self.binary(Level::And)
    }

    /// An equality.
    pub fn equality(&mut self) -> (r: Result<Expr, ErrorKind>)
        ensures
            final(self).follows(
                old(self),
                r,
                grammar::binary(
                    old(self).stream(),
                    old(self).position(),
                    old(self).macro_map(),
                    Level::Equality,
                ),
            ),
            r is Ok ==> final(self).position() > old(self).position(),
            proper_result(r),
    {
        proof {
            use_type_invariant(&*self);
            binary_is_proper(self.stream(), self.position(), self.macro_map(), Level::Equality);
        }
        self.binary(Level::Equality)
    }

    /// A comparison.
    pub fn comparison(&mut self) -> (r: Result<Expr, ErrorKind>)
        ensures
            final(self).follows(
                old(self),
                r,
                grammar::binary(
                    old(self).stream(),
                    old(self).position(),
                    old(self).macro_map(),
                    Level::Comparison,
                ),
            ),
            r is Ok ==> final(self).position() > old(self).position(),
            proper_result(r),
    {
        proof {
            use_type_invariant(&*self);
            binary_is_proper(self.stream(), self.position(), self.macro_map(), Level::Comparison);
        }
        self.binary(Level::Comparison)
    }

    /// A sum or difference.
    pub fn term(&mut self) -> (r: Result<Expr, ErrorKind>)
        ensures
            final(self).follows(
                old(self),
                r,
                grammar::binary(
                    old(self).stream(),
                    old(self).position(),
                    old(self).macro_map(),
                    Level::Term,
                ),
            ),
            r is Ok ==> final(self).position() > old(self).position(),
            proper_result(r),
    {
        proof {
            use_type_invariant(&*self);
            binary_is_proper(self.stream(), self.position(), self.macro_map(), Level::Term);
        }
        self.binary(Level::Term)
    }

    /// A product, quotient or remainder.
    pub fn factor(&mut self) -> (r: Result<Expr, ErrorKind>)
        ensures
            final(self).follows(
                old(self),
                r,
                grammar::binary(
                    old(self).stream(),
                    old(self).position(),
                    old(self).macro_map(),
                    Level::Factor,
                ),
            ),
            r is Ok ==> final(self).position() > old(self).position(),
            proper_result(r),
    {
        proof {
            use_type_invariant(&*self);
            binary_is_proper(self.stream(), self.position(), self.macro_map(), Level::Factor);
        }
        self.binary(Level::Factor)
    }

    /// An operand of `level`.
    pub fn operand(&mut self, level: Level) -> (r: Result<Expr, ErrorKind>)
        ensures
            final(self).follows(
                old(self),
                r,
                grammar::operand(old(self).stream(), old(self).position(), old(self).macro_map(), level),
            ),
            r is Ok ==> final(self).position() > old(self).position(),
            proper_result(r),
        decreases old(self).remaining(), 21 + 2 * level_rank(level),
    {
        proof {
            use_type_invariant(&*self);
            operand_is_proper(self.stream(), self.position(), self.macro_map(), level);
        }
        match level {
            Level::Factor => self.unary(),
            Level::Term => self.binary(Level::Factor),
            Level::Comparison => self.binary(Level::Term),
            Level::Equality => self.binary(Level::Comparison),
            Level::And => self.binary(Level::Equality),
            Level::Or => self.binary(Level::And),
        }
    }

    /// A chain of operands of `level` joined by its operators, grouped to
    /// the left.
    pub fn binary(&mut self, level: Level) -> (r: Result<Expr, ErrorKind>)
        ensures
            final(self).follows(
                old(self),
                r,
                grammar::binary(old(self).stream(), old(self).position(), old(self).macro_map(), level),
            ),
            r is Ok ==> final(self).position() > old(self).position(),
            proper_result(r),
        decreases old(self).remaining(), 22 + 2 * level_rank(level),
    {
        proof {
            use_type_invariant(&*self);
            binary_is_proper(self.stream(), self.position(), self.macro_map(), level);
        }
        let mut left = match self.operand(level) {
            Ok(e) => e,
            Err(k) => {
                return Err(k);
            },
        };
        let ghost goal = grammar::binary(
            old(self).stream(),
            old(self).position(),
            old(self).macro_map(),
            level,
        );
        while is_level_operator(level, self.kind())
            invariant
                self.continues(old(self)),
                self.position() > old(self).position(),
                !(left@ is End),
                goal == grammar::binary(
                    old(self).stream(),
                    old(self).position(),
                    old(self).macro_map(),
                    level,
                ),
                grammar::binary_tail(self.stream(), self.position(), self.macro_map(), level, left@)
                    == goal,
            decreases self.remaining(),
        {
            let op = self.take();
            let right = match self.operand(level) {
                Ok(e) => e,
                Err(k) => {
                    return Err(k);
                },
            };
            left = combine(level, left, right, op);
        }
        Ok(left)
    }

    /// A prefix operation on a unary expression, or a call expression.
    pub fn unary(&mut self) -> (r: Result<Expr, ErrorKind>)
        ensures
            final(self).follows(
                old(self),
                r,
                grammar::unary(old(self).stream(), old(self).position(), old(self).macro_map()),
            ),
            r is Ok ==> final(self).position() > old(self).position(),
            proper_result(r),
        decreases old(self).remaining(), 15nat,
    {
        proof {
            use_type_invariant(&*self);
            unary_is_proper(self.stream(), self.position(), self.macro_map());
        }
        let kind = self.kind();
        if kind == TokenType::Bang || kind == TokenType::Not || kind == TokenType::Minus {
            let op = self.take();
            let right = match self.unary() {
                Ok(e) => e,
                Err(k) => {
                    return Err(k);
                },
            };
            Ok(Expr::Unary { right: Box::new(right), op })
        } else {
            self.call(&None)
        }
    }

    /// A primary expression and what is applied to it. `piped` is the
    /// value that a forward pipe hands to the first call of this chain.
    pub fn call(&mut self, piped: &Option<Expr>) -> (r: Result<Expr, ErrorKind>)
        ensures
            final(self).follows(
                old(self),
                r,
                grammar::call(
                    old(self).stream(),
                    old(self).position(),
                    old(self).macro_map(),
                    optional_view(*piped),
                ),
            ),
            r is Ok ==> final(self).position() > old(self).position(),
            proper_optional(optional_view(*piped)) ==> proper_result(r),
        decreases old(self).remaining(), 14nat,
    {
        proof {
            use_type_invariant(&*self);
            if proper_optional(optional_view(*piped)) {
                call_is_proper(self.stream(), self.position(), self.macro_map(), optional_view(*piped));
            }
        }
        let mut expr = match self.primary() {
            Ok(e) => e,
            Err(k) => {
                return Err(k);
            },
        };
        let ghost goal = grammar::call(
            old(self).stream(),
            old(self).position(),
            old(self).macro_map(),
            optional_view(*piped),
        );
        let mut waiting = clone_optional(piped);
        loop
            invariant
                self.continues(old(self)),
                self.position() > old(self).position(),
                !(expr@ is End),
                goal == grammar::call(
                    old(self).stream(),
                    old(self).position(),
                    old(self).macro_map(),
                    optional_view(*piped),
                ),
                grammar::postfix(
                    self.stream(),
                    self.position(),
                    self.macro_map(),
                    expr@,
                    optional_view(waiting),
                ) == goal,
                proper_optional(optional_view(*piped)) ==> proper_tree(goal),
            decreases self.remaining(),
        {
            let kind = self.kind();
            if kind == TokenType::LParen {
                self.bump();
                let handed = waiting;
                waiting = None;
                expr = match self.finish_call(expr, handed) {
                    Ok(e) => e,
                    Err(k) => {
                        return Err(k);
                    },
                };
            } else if kind == TokenType::Dot {
                let token = self.take();
                let member = match self.binary(Level::Or) {
                    Ok(e) => e,
                    Err(k) => {
                        return Err(k);
                    },
                };
                expr = Expr::Get { instance: Box::new(expr), value: Box::new(member), token };
            } else if kind == TokenType::RPipe {
                self.bump();
                return self.call(&Some(expr));
            } else if kind == TokenType::Question {
                let mark = self.take();
                expr = match self.ternary(expr, mark) {
                    Ok(e) => e,
                    Err(k) => {
                        return Err(k);
                    },
                };
            } else {
                return Ok(expr);
            }
        }
    }

    /// The two arms of a conditional on `cond`, after its `?`, which is
    /// `mark`.
    pub fn ternary(&mut self, cond: Expr, mark: Token) -> (r: Result<Expr, ErrorKind>)
        ensures
            final(self).follows(
                old(self),
                r,
                grammar::ternary(
                    old(self).stream(),
                    old(self).position(),
                    old(self).macro_map(),
                    cond@,
                    mark@,
                ),
            ),
            r is Ok ==> final(self).position() > old(self).position(),
            proper(cond@) ==> proper_result(r),
        decreases old(self).remaining(), 51nat,
    {
        proof {
            use_type_invariant(&*self);
            if proper(cond@) {
                ternary_is_proper(self.stream(), self.position(), self.macro_map(), cond@, mark@);
            }
        }
        let yes = match self.expression() {
            Ok(e) => e,
            Err(k) => {
                return Err(k);
            },
        };
        if self.kind() != TokenType::Colon {
            return Err(ErrorKind::ExpectedColon);
        }
        self.bump();
        let no = match self.expression() {
            Ok(e) => e,
            Err(k) => {
                return Err(k);
            },
        };
        Ok(ternary_node(mark, cond, yes, no))
    }

    /// A call of `callee`, after its `(`.
    pub fn finish_call(&mut self, callee: Expr, piped: Option<Expr>) -> (r: Result<Expr, ErrorKind>)
        ensures
            final(self).follows(
                old(self),
                r,
                grammar::finish_call(
                    old(self).stream(),
                    old(self).position(),
                    old(self).macro_map(),
                    callee@,
                    optional_view(piped),
                ),
            ),
            r is Ok ==> final(self).position() > old(self).position(),
            proper(callee@) && proper_optional(optional_view(piped)) ==> proper_result(r),
        decreases old(self).remaining(), 53nat,
    {
        proof {
            use_type_invariant(&*self);
            if proper(callee@) && proper_optional(optional_view(piped)) {
                finish_call_is_proper(self.stream(), self.position(), self.macro_map(), callee@, optional_view(piped));
            }
        }
        let mut first: Vec<CallArg> = Vec::new();
        match piped {
            Some(p) => {
                let arg = CallArg::positional(p);
                first.push(arg);
                assert(arg_models(first@) =~= seq![CallArgView::Positional(p@)]);
            },
            None => {
                assert(arg_models(first@) =~= Seq::<CallArgView>::empty());
            },
        }
        let args = match self.arguments(first) {
            Ok(a) => a,
            Err(k) => {
                return Err(k);
            },
        };
        if self.kind() != TokenType::RParen {
            return Err(ErrorKind::ExpectedRParen);
        }
        let token = self.take();
        let args = match self.trailing_pipe(args) {
            Ok(a) => a,
            Err(k) => {
                return Err(k);
            },
        };
        let args = match self.callback_pipe(args) {
            Ok(a) => a,
            Err(k) => {
                return Err(k);
            },
        };
        Ok(Expr::call(callee, args, token))
    }

    /// The arguments of a call, added to `acc`.
    pub fn arguments(&mut self, acc: Vec<CallArg>) -> (r: Result<Vec<CallArg>, ErrorKind>)
        ensures
            final(self).continues(old(self)),
            final(self).yields(args_view(r)) == grammar::arguments(
                old(self).stream(),
                old(self).position(),
                old(self).macro_map(),
                arg_models(acc@),
            ),
        decreases old(self).remaining(), 52nat,
    {
        proof {
            use_type_invariant(&*self);
        }
        if self.kind() == TokenType::RParen {
            return Ok(acc);
        }
        let ghost goal = grammar::arguments(
            old(self).stream(),
            old(self).position(),
            old(self).macro_map(),
            arg_models(acc@),
        );
        let mut args = acc;
        loop
            invariant
                self.continues(old(self)),
                goal == grammar::arguments(
                    old(self).stream(),
                    old(self).position(),
                    old(self).macro_map(),
                    arg_models(acc@),
                ),
                grammar::more_arguments(
                    self.stream(),
                    self.position(),
                    self.macro_map(),
                    arg_models(args@),
                ) == goal,
            decreases self.remaining(),
        {
            let spread = self.kind() == TokenType::Ellipsis;
            if spread {
                self.bump();
            }
            let e = match self.expression() {
                Ok(e) => e,
                Err(k) => {
                    return Err(k);
                },
            };
            let arg = if spread {
                CallArg::unpacking(e)
            } else {
                CallArg::positional(e)
            };
            proof {
                lemma_arg_models_push(args@, arg);
            }
            args.push(arg);
            if self.kind() == TokenType::Comma {
                self.bump();
            } else {
                return Ok(args);
            }
        }
    }

    /// After the `)` of a call: `<| expr` adds `expr` to `args`.
    pub fn trailing_pipe(&mut self, args: Vec<CallArg>) -> (r: Result<Vec<CallArg>, ErrorKind>)
        ensures
            final(self).continues(old(self)),
            final(self).yields(args_view(r)) == grammar::trailing_pipe(
                old(self).stream(),
                old(self).position(),
                old(self).macro_map(),
                arg_models(args@),
            ),
        decreases old(self).remaining(), 51nat,
    {
        proof {
            use_type_invariant(&*self);
        }
        if self.kind() == TokenType::LPipe {
            self.bump();
            let e = match self.expression() {
                Ok(e) => e,
                Err(k) => {
                    return Err(k);
                },
            };
            let mut args = args;
            let arg = CallArg::positional(e);
            proof {
                lemma_arg_models_push(args@, arg);
            }
            args.push(arg);
            Ok(args)
        } else {
            Ok(args)
        }
    }

    /// After the `)` of a call: `<~ (params) body` adds a lambda to `args`.
    pub fn callback_pipe(&mut self, args: Vec<CallArg>) -> (r: Result<Vec<CallArg>, ErrorKind>)
        ensures
            final(self).continues(old(self)),
            final(self).yields(args_view(r)) == grammar::callback_pipe(
                old(self).stream(),
                old(self).position(),
                old(self).macro_map(),
                arg_models(args@),
            ),
        decreases old(self).remaining(), 51nat,
    {
        proof {
            use_type_invariant(&*self);
        }
        if self.kind() == TokenType::LTilde {
            self.bump();
            let (params, rest) = if self.kind() == TokenType::LParen {
                match self.parse_params() {
                    Ok(sig) => sig,
                    Err(k) => {
                        return Err(k);
                    },
                }
            } else {
                let none: Vec<Token> = Vec::new();
                assert(token_views(none@) =~= Seq::<TokenView>::empty());
                (none, None)
            };
            let body = match self.expression() {
                Ok(e) => e,
                Err(k) => {
                    return Err(k);
                },
            };
            let mut args = args;
            let arg = CallArg::positional(Expr::lambda(params, rest, body));
            proof {
                lemma_arg_models_push(args@, arg);
            }
            args.push(arg);
            Ok(args)
        } else {
            Ok(args)
        }
    }

    /// A parameter list: `(`, the parameters, `)`.
    pub fn parse_params(&mut self) -> (r: Result<(Vec<Token>, Option<Token>), ErrorKind>)
        ensures
            final(self).continues(old(self)),
            final(self).yields(signature_view(r)) == grammar::parameters(
                old(self).stream(),
                old(self).position(),
                old(self).macro_map(),
            ),
    {
        proof {
            use_type_invariant(&*self);
        }
        if self.kind() != TokenType::LParen {
            return Err(ErrorKind::ExpectedLParen);
        }
        self.bump();
        let (params, rest) = if self.kind() == TokenType::RParen {
            let none: Vec<Token> = Vec::new();
            assert(token_views(none@) =~= Seq::<TokenView>::empty());
            (none, None)
        } else {
            match self.parameter_items() {
                Ok(sig) => sig,
                Err(k) => {
                    return Err(k);
                },
            }
        };
        if self.kind() != TokenType::RParen {
            return Err(ErrorKind::ExpectedRParen);
        }
        self.bump();
        Ok((params, rest))
    }

    /// The parameters after `(`.
    pub fn parameter_items(&mut self) -> (r: Result<(Vec<Token>, Option<Token>), ErrorKind>)
        ensures
            final(self).continues(old(self)),
            final(self).yields(signature_view(r)) == grammar::parameter_items(
                old(self).stream(),
                old(self).position(),
                old(self).macro_map(),
                Signature { params: Seq::empty(), rest: None },
            ),
    {
        proof {
            use_type_invariant(&*self);
        }
        let mut params: Vec<Token> = Vec::new();
        let mut rest: Option<Token> = None;
        assert(token_views(params@) =~= Seq::<TokenView>::empty());
        let ghost goal = grammar::parameter_items(
            old(self).stream(),
            old(self).position(),
            old(self).macro_map(),
            Signature { params: Seq::empty(), rest: None },
        );
        loop
            invariant
                self.continues(old(self)),
                self.macro_map() == old(self).macro_map(),
                goal == grammar::parameter_items(
                    old(self).stream(),
                    old(self).position(),
                    old(self).macro_map(),
                    Signature { params: Seq::empty(), rest: None },
                ),
                grammar::parameter_items(
                    self.stream(),
                    self.position(),
                    self.macro_map(),
                    Signature { params: token_views(params@), rest: optional_token_view(rest) },
                ) == goal,
            decreases self.remaining(),
        {
            if rest.is_some() {
                return Err(ErrorKind::ParameterAfterRest);
            }
            let kind = self.kind();
            if kind == TokenType::Id {
                let param = self.take();
                if self.kind() == TokenType::Plus {
                    self.bump();
                    rest = Some(param);
                } else {
                    proof {
                        lemma_token_views_push(params@, param);
                    }
                    params.push(param);
                }
            } else if kind == TokenType::Underscore {
                let param = self.take();
                proof {
                    lemma_token_views_push(params@, param);
                }
                params.push(param);
            }
            if self.kind() == TokenType::Comma {
                self.bump();
            } else {
                return Ok((params, rest));
            }
        }
    }

    /// A primary expression, told by its first token.
    pub fn primary(&mut self) -> (r: Result<Expr, ErrorKind>)
        ensures
            final(self).follows(
                old(self),
                r,
                grammar::primary(old(self).stream(), old(self).position(), old(self).macro_map()),
            ),
            r is Ok ==> final(self).position() > old(self).position(),
            proper_result(r),
        decreases old(self).remaining(), 12nat,
    {
        proof {
            use_type_invariant(&*self);
            primary_is_proper(self.stream(), self.position(), self.macro_map());
        }
        let kind = self.kind();
        if kind == TokenType::True || kind == TokenType::False {
            let token = self.take();
            Ok(Expr::BoolLiteral { token, payload: kind == TokenType::True })
        } else if kind == TokenType::Underscore {
            let token = self.take();
            Ok(Expr::Underscore { token })
        } else if kind == TokenType::Null {
            let token = self.take();
            Ok(Expr::Null { token })
        } else if kind == TokenType::Int {
            let token = self.take();
            match parse_int(token.lexeme.as_str()) {
                Some(value) => Ok(Expr::IntegerLiteral { token, value }),
                None => Err(ErrorKind::InvalidNumber),
            }
        } else if kind == TokenType::Float {
            let token = self.take();
            if is_float_lexeme(token.lexeme.as_str()) {
                let value = token.lexeme.clone();
                Ok(Expr::FloatLiteral { token, value })
            } else {
                Err(ErrorKind::InvalidNumber)
            }
        } else if kind == TokenType::Str {
            let token = self.take();
            let value = token.lexeme.clone();
            Ok(Expr::StringLiteral { token, value })
        } else if kind == TokenType::Atom {
            let token = self.take();
            let value = token.lexeme.clone();
            Ok(Expr::AtomLiteral { token, value })
        } else if kind == TokenType::Id {
            let token = self.take();
            Ok(Expr::Variable { name: token })
        } else if kind == TokenType::LParen {
            self.bump();
            self.group()
        } else if kind == TokenType::LBracket {
            let mark = self.take();
            self.list_literal(mark)
        } else if kind == TokenType::LBrace {
            let mark = self.take();
            self.braces(mark)
        } else if kind == TokenType::MinusGT {
            self.bump();
            self.lambda()
        } else if kind == TokenType::Func {
            let none: Vec<Decorator> = Vec::new();
            assert(decorator_views(none@) =~= Seq::<DecoratorView>::empty());
            self.function(false, none)
        } else if kind == TokenType::Public {
            self.bump();
            let none: Vec<Decorator> = Vec::new();
            assert(decorator_views(none@) =~= Seq::<DecoratorView>::empty());
            self.function(true, none)
        } else if kind == TokenType::At {
            self.bump();
            self.decorated()
        } else if kind == TokenType::Match {
            let mark = self.take();
            self.match_expression(mark)
        } else if kind == TokenType::Try {
            let mark = self.take();
            self.try_expression(mark)
        } else if kind == TokenType::Unsafe {
            let mark = self.take();
            self.unsafe_expression(mark)
        } else if kind == TokenType::Dollar {
            let mark = self.take();
            self.shell_expression(mark)
        } else if kind == TokenType::Def {
            self.bump();
            self.define_macro()
        } else if kind == TokenType::Redef {
            self.bump();
            self.redefine_macro()
        } else if kind == TokenType::Hash {
            self.bump();
            self.use_macro()
        } else {
            Err(ErrorKind::UnexpectedToken)
        }
    }

    /// A group after its `(`.
    pub fn group(&mut self) -> (r: Result<Expr, ErrorKind>)
        ensures
            final(self).follows(
                old(self),
                r,
                grammar::group(old(self).stream(), old(self).position(), old(self).macro_map()),
            ),
            r is Ok ==> final(self).position() > old(self).position(),
            proper_result(r),
        decreases old(self).remaining(), 51nat,
    {
        proof {
            use_type_invariant(&*self);
            group_is_proper(self.stream(), self.position(), self.macro_map());
        }
        let inner = match self.expression() {
            Ok(e) => e,
            Err(k) => {
                return Err(k);
            },
        };
        if self.kind() != TokenType::RParen {
            return Err(ErrorKind::ExpectedRParen);
        }
        self.bump();
        Ok(Expr::Group { expr: Box::new(inner) })
    }

    /// A list literal after its `[`, which is `mark`.
    pub fn list_literal(&mut self, mark: Token) -> (r: Result<Expr, ErrorKind>)
        ensures
            final(self).follows(
                old(self),
                r,
                grammar::list_literal(
                    old(self).stream(),
                    old(self).position(),
                    old(self).macro_map(),
                    mark@,
                ),
            ),
            r is Ok ==> final(self).position() > old(self).position(),
            proper_result(r),
        decreases old(self).remaining(), 51nat,
    {
        proof {
            use_type_invariant(&*self);
            list_literal_is_proper(self.stream(), self.position(), self.macro_map(), mark@);
        }
        let values = match self.list_items() {
            Ok(v) => v,
            Err(k) => {
                return Err(k);
            },
        };
        if self.kind() != TokenType::RBracket {
            return Err(ErrorKind::ExpectedRBracket);
        }
        self.bump();
        Ok(Expr::ListLiteral { token: mark, values })
    }

    /// The elements of a list, up to `]` or the end.
    pub fn list_items(&mut self) -> (r: Result<Vec<Box<Expr>>, ErrorKind>)
        ensures
            final(self).continues(old(self)),
            final(self).yields(exprs_view(r)) == grammar::list_items(
                old(self).stream(),
                old(self).position(),
                old(self).macro_map(),
                Seq::empty(),
            ),
        decreases old(self).remaining(), 50nat,
    {
        proof {
            use_type_invariant(&*self);
        }
        let mut values: Vec<Box<Expr>> = Vec::new();
        assert(models(values@) =~= Seq::<ExprView>::empty());
        let ghost goal = grammar::list_items(
            old(self).stream(),
            old(self).position(),
            old(self).macro_map(),
            Seq::empty(),
        );
        loop
            invariant
                self.continues(old(self)),
                goal == grammar::list_items(
                    old(self).stream(),
                    old(self).position(),
                    old(self).macro_map(),
                    Seq::empty(),
                ),
                grammar::list_items(self.stream(), self.position(), self.macro_map(), models(values@))
                    == goal,
            decreases self.remaining(),
        {
            let kind = self.kind();
            if kind == TokenType::RBracket || kind == TokenType::EOF {
                return Ok(values);
            }
            let e = match self.expression() {
                Ok(e) => e,
                Err(k) => {
                    return Err(k);
                },
            };
            let item = Box::new(e);
            proof {
                lemma_models_push(values@, item);
            }
            values.push(item);
            if self.kind() == TokenType::Comma {
                self.bump();
            } else {
                return Ok(values);
            }
        }
    }

    /// What stands after `{`, which is `mark`: an object or a block.
    pub fn braces(&mut self, mark: Token) -> (r: Result<Expr, ErrorKind>)
        ensures
            final(self).follows(
                old(self),
                r,
                grammar::braces(old(self).stream(), old(self).position(), old(self).macro_map(), mark@),
            ),
            r is Ok ==> final(self).position() > old(self).position(),
            proper_result(r),
        decreases old(self).remaining(), 53nat,
    {
        proof {
            use_type_invariant(&*self);
            braces_is_proper(self.stream(), self.position(), self.macro_map(), mark@);
        }
        if self.kind() == TokenType::RBrace {
            self.bump();
            let keys: Vec<Token> = Vec::new();
            let values: Vec<Box<Expr>> = Vec::new();
            assert(token_views(keys@) =~= Seq::<TokenView>::empty());
            assert(models(values@) =~= Seq::<ExprView>::empty());
            return Ok(Expr::ObjectLiteral { token: mark, keys, values });
        }
        let first = match self.expression() {
            Ok(e) => e,
            Err(k) => {
                return Err(k);
            },
        };
        if self.is_end() {
            return Err(ErrorKind::UnexpectedEndInBraces);
        }
        if self.kind() == TokenType::Colon {
            self.bump();
            self.object_literal(first)
        } else {
            self.block(first)
        }
    }

    /// An object literal after its first key, which is `key`, and `:`.
    pub fn object_literal(&mut self, key: Expr) -> (r: Result<Expr, ErrorKind>)
        ensures
            final(self).follows(
                old(self),
                r,
                grammar::object_literal(
                    old(self).stream(),
                    old(self).position(),
                    old(self).macro_map(),
                    key@,
                ),
            ),
            r is Ok ==> final(self).position() > old(self).position(),
            proper(key@) ==> proper_result(r),
        decreases old(self).remaining(), 52nat,
    {
        proof {
            use_type_invariant(&*self);
            if proper(key@) {
                object_literal_is_proper(self.stream(), self.position(), self.macro_map(), key@);
            }
        }
        match key {
            Expr::Variable { name } => {
                let value = match self.expression() {
                    Ok(e) => e,
                    Err(k) => {
                        return Err(k);
                    },
                };
                let mut keys: Vec<Token> = Vec::new();
                keys.push(name.clone());
                let mut values: Vec<Box<Expr>> = Vec::new();
                values.push(Box::new(value));
                assert(token_views(keys@) =~= seq![name@]);
                assert(models(values@) =~= seq![value@]);
                let (keys, values) = if self.kind() == TokenType::Comma {
                    self.bump();
                    match self.object_entries(keys, values) {
                        Ok(entries) => entries,
                        Err(k) => {
                            return Err(k);
                        },
                    }
                } else {
                    (keys, values)
                };
                if self.kind() != TokenType::RBrace {
                    return Err(ErrorKind::ExpectedRBrace);
                }
                self.bump();
                Ok(Expr::ObjectLiteral { token: name, keys, values })
            },
            _ => Err(ErrorKind::ExpectedIdentifier),
        }
    }

    /// The further entries of an object, added to `keys` and `values`.
    pub fn object_entries(&mut self, keys: Vec<Token>, values: Vec<Box<Expr>>) -> (r: Result<
        (Vec<Token>, Vec<Box<Expr>>),
        ErrorKind,
    >)
        ensures
            final(self).continues(old(self)),
            final(self).yields(entries_view(r)) == grammar::object_entries(
                old(self).stream(),
                old(self).position(),
                old(self).macro_map(),
                Entries { keys: token_views(keys@), values: models(values@) },
            ),
        decreases old(self).remaining(), 50nat,
    {
        proof {
            use_type_invariant(&*self);
        }
        let ghost goal = grammar::object_entries(
            old(self).stream(),
            old(self).position(),
            old(self).macro_map(),
            Entries { keys: token_views(keys@), values: models(values@) },
        );
        let mut all_keys = keys;
        let mut all_values = values;
        loop
            invariant
                self.continues(old(self)),
                goal == grammar::object_entries(
                    old(self).stream(),
                    old(self).position(),
                    old(self).macro_map(),
                    Entries { keys: token_views(keys@), values: models(values@) },
                ),
                grammar::object_entries(
                    self.stream(),
                    self.position(),
                    self.macro_map(),
                    Entries { keys: token_views(all_keys@), values: models(all_values@) },
                ) == goal,
            decreases self.remaining(),
        {
            let kind = self.kind();
            if kind == TokenType::RBrace || kind == TokenType::EOF {
                return Ok((all_keys, all_values));
            }
            if kind != TokenType::Id {
                return Err(ErrorKind::ExpectedIdentifier);
            }
            let key = self.take();
            if self.kind() != TokenType::Colon {
                return Err(ErrorKind::ExpectedColon);
            }
            self.bump();
            let e = match self.expression() {
                Ok(e) => e,
                Err(k) => {
                    return Err(k);
                },
            };
            let item = Box::new(e);
            proof {
                lemma_token_views_push(all_keys@, key);
                lemma_models_push(all_values@, item);
            }
            all_keys.push(key);
            all_values.push(item);
            if self.kind() == TokenType::Comma {
                self.bump();
            } else {
                return Ok((all_keys, all_values));
            }
        }
    }

    /// A block after its first expression, which is `first`.
    pub fn block(&mut self, first: Expr) -> (r: Result<Expr, ErrorKind>)
        ensures
            final(self).follows(
                old(self),
                r,
                grammar::block(old(self).stream(), old(self).position(), old(self).macro_map(), first@),
            ),
            r is Ok ==> final(self).position() > old(self).position(),
            proper(first@) ==> proper_result(r),
        decreases old(self).remaining(), 51nat,
    {
        proof {
            use_type_invariant(&*self);
            if proper(first@) {
                block_is_proper(self.stream(), self.position(), self.macro_map(), first@);
            }
        }
        let mut exprs: Vec<Box<Expr>> = Vec::new();
        exprs.push(Box::new(first));
        assert(models(exprs@) =~= seq![first@]);
        let exprs = match self.block_items(exprs) {
            Ok(v) => v,
            Err(k) => {
                return Err(k);
            },
        };
        if self.kind() != TokenType::RBrace {
            return Err(ErrorKind::ExpectedRBrace);
        }
        let token = self.take();
        Ok(Expr::Block { token, exprs })
    }

    /// The further expressions of a block, added to `acc`.
    pub fn block_items(&mut self, acc: Vec<Box<Expr>>) -> (r: Result<Vec<Box<Expr>>, ErrorKind>)
        ensures
            final(self).continues(old(self)),
            final(self).yields(exprs_view(r)) == grammar::block_items(
                old(self).stream(),
                old(self).position(),
                old(self).macro_map(),
                models(acc@),
            ),
        decreases old(self).remaining(), 50nat,
    {
        proof {
            use_type_invariant(&*self);
        }
        let ghost goal = grammar::block_items(
            old(self).stream(),
            old(self).position(),
            old(self).macro_map(),
            models(acc@),
        );
        let mut exprs = acc;
        loop
            invariant
                self.continues(old(self)),
                goal == grammar::block_items(
                    old(self).stream(),
                    old(self).position(),
                    old(self).macro_map(),
                    models(acc@),
                ),
                grammar::block_items(self.stream(), self.position(), self.macro_map(), models(exprs@))
                    == goal,
            decreases self.remaining(),
        {
            let kind = self.kind();
            if kind == TokenType::RBrace || kind == TokenType::EOF {
                return Ok(exprs);
            }
            let e = match self.expression() {
                Ok(e) => e,
                Err(k) => {
                    return Err(k);
                },
            };
            let item = Box::new(e);
            proof {
                lemma_models_push(exprs@, item);
            }
            exprs.push(item);
        }
    }

    /// A lambda after `->`.
    pub fn lambda(&mut self) -> (r: Result<Expr, ErrorKind>)
        ensures
            final(self).follows(
                old(self),
                r,
                grammar::lambda(old(self).stream(), old(self).position(), old(self).macro_map()),
            ),
            r is Ok ==> final(self).position() > old(self).position(),
            proper_result(r),
        decreases old(self).remaining(), 51nat,
    {
        proof {
            use_type_invariant(&*self);
            lambda_is_proper(self.stream(), self.position(), self.macro_map());
        }
        let body = match self.expression() {
            Ok(e) => e,
            Err(k) => {
                return Err(k);
            },
        };
        let none: Vec<Token> = Vec::new();
        assert(token_views(none@) =~= Seq::<TokenView>::empty());
        Ok(Expr::lambda(none, None, body))
    }

    /// A function. `public` says whether `public` was read already;
    /// `decorators` are those read before it.
    pub fn function(&mut self, public: bool, decorators: Vec<Decorator>) -> (r: Result<Expr, ErrorKind>)
        ensures
            final(self).follows(
                old(self),
                r,
                grammar::function(
                    old(self).stream(),
                    old(self).position(),
                    old(self).macro_map(),
                    public,
                    decorator_views(decorators@),
                ),
            ),
            r is Ok ==> final(self).position() > old(self).position(),
            proper_decorators(decorator_views(decorators@)) ==> proper_result(r),
        decreases old(self).remaining(), 11nat,
    {
        proof {
            use_type_invariant(&*self);
            if proper_decorators(decorator_views(decorators@)) {
                function_is_proper(self.stream(), self.position(), self.macro_map(), public, decorator_views(decorators@));
            }
        }
        let mut public = public;
        if !public && self.kind() == TokenType::Public {
            self.bump();
            public = true;
        }
        if self.kind() != TokenType::Func {
            return Err(ErrorKind::ExpectedFunc);
        }
        self.bump();
        let name = if self.kind() == TokenType::Id {
            Some(self.take())
        } else {
            None
        };
        let (params, rest) = match self.parse_params() {
            Ok(sig) => sig,
            Err(k) => {
                return Err(k);
            },
        };
        let body = match self.expression() {
            Ok(e) => e,
            Err(k) => {
                return Err(k);
            },
        };
        let mark = self.previous();
        function_node(public, name, params, rest, body, &decorators, &mark)
    }

    /// A decorated function after `@`.
    pub fn decorated(&mut self) -> (r: Result<Expr, ErrorKind>)
        ensures
            final(self).follows(
                old(self),
                r,
                grammar::decorated(old(self).stream(), old(self).position(), old(self).macro_map()),
            ),
            r is Ok ==> final(self).position() > old(self).position(),
            proper_result(r),
        decreases old(self).remaining(), 55nat,
    {
        proof {
            use_type_invariant(&*self);
            decorated_is_proper(self.stream(), self.position(), self.macro_map());
        }
        if self.kind() != TokenType::LBracket {
            return Err(ErrorKind::ExpectedLBracket);
        }
        self.bump();
        let list = match self.decorators() {
            Ok(l) => l,
            Err(k) => {
                return Err(k);
            },
        };
        if self.kind() != TokenType::RBracket {
            return Err(ErrorKind::ExpectedRBracket);
        }
        self.bump();
        self.function(false, list)
    }

    /// The decorators after `[`.
    pub fn decorators(&mut self) -> (r: Result<Vec<Decorator>, ErrorKind>)
        ensures
            final(self).continues(old(self)),
            final(self).yields(decorators_view(r)) == grammar::decorators(
                old(self).stream(),
                old(self).position(),
                old(self).macro_map(),
                Seq::empty(),
            ),
        decreases old(self).remaining(), 54nat,
    {
        proof {
            use_type_invariant(&*self);
        }
        let mut list: Vec<Decorator> = Vec::new();
        assert(decorator_views(list@) =~= Seq::<DecoratorView>::empty());
        let ghost goal = grammar::decorators(
            old(self).stream(),
            old(self).position(),
            old(self).macro_map(),
            Seq::empty(),
        );
        loop
            invariant
                self.continues(old(self)),
                goal == grammar::decorators(
                    old(self).stream(),
                    old(self).position(),
                    old(self).macro_map(),
                    Seq::empty(),
                ),
                grammar::decorators(
                    self.stream(),
                    self.position(),
                    self.macro_map(),
                    decorator_views(list@),
                ) == goal,
            decreases self.remaining(),
        {
            if self.kind() == TokenType::RBracket {
                return Ok(list);
            }
            if self.kind() != TokenType::Id {
                return Err(ErrorKind::ExpectedIdentifier);
            }
            let name = self.take();
            let mut args: Vec<CallArg> = Vec::new();
            assert(arg_models(args@) =~= Seq::<CallArgView>::empty());
            if self.kind() == TokenType::LParen {
                self.bump();
                args = match self.arguments(args) {
                    Ok(a) => a,
                    Err(k) => {
                        return Err(k);
                    },
                };
                if self.kind() != TokenType::RParen {
                    return Err(ErrorKind::ExpectedRParen);
                }
                self.bump();
            }
            let decorator = Decorator { name, args };
            proof {
                lemma_decorator_views_push(list@, decorator);
            }
            list.push(decorator);
            if self.kind() == TokenType::Comma {
                self.bump();
            } else {
                return Ok(list);
            }
        }
    }

    /// A `match` after its keyword, which is `mark`.
    pub fn match_expression(&mut self, mark: Token) -> (r: Result<Expr, ErrorKind>)
        ensures
            final(self).follows(
                old(self),
                r,
                grammar::match_expression(
                    old(self).stream(),
                    old(self).position(),
                    old(self).macro_map(),
                    mark@,
                ),
            ),
            r is Ok ==> final(self).position() > old(self).position(),
            proper_result(r),
        decreases old(self).remaining(), 51nat,
    {
        proof {
            use_type_invariant(&*self);
            match_expression_is_proper(self.stream(), self.position(), self.macro_map(), mark@);
        }
        let condition = match self.expression() {
            Ok(e) => e,
            Err(k) => {
                return Err(k);
            },
        };
        if self.kind() != TokenType::LBrace {
            return Err(ErrorKind::ExpectedLBrace);
        }
        self.bump();
        let branches = match self.match_branches() {
            Ok(b) => b,
            Err(k) => {
                return Err(k);
            },
        };
        if self.kind() != TokenType::RBrace {
            return Err(ErrorKind::ExpectedRBrace);
        }
        self.bump();
        Ok(Expr::matching(mark, condition, branches))
    }

    /// The branches of a `match`, up to `}`.
    pub fn match_branches(&mut self) -> (r: Result<Vec<MatchBranch>, ErrorKind>)
        ensures
            final(self).continues(old(self)),
            final(self).yields(branches_view(r)) == grammar::match_branches(
                old(self).stream(),
                old(self).position(),
                old(self).macro_map(),
                Seq::empty(),
            ),
        decreases old(self).remaining(), 50nat,
    {
        proof {
            use_type_invariant(&*self);
        }
        let mut branches: Vec<MatchBranch> = Vec::new();
        assert(branch_models(branches@) =~= Seq::<MatchBranchView>::empty());
        let ghost goal = grammar::match_branches(
            old(self).stream(),
            old(self).position(),
            old(self).macro_map(),
            Seq::empty(),
        );
        loop
            invariant
                self.continues(old(self)),
                goal == grammar::match_branches(
                    old(self).stream(),
                    old(self).position(),
                    old(self).macro_map(),
                    Seq::empty(),
                ),
                grammar::match_branches(
                    self.stream(),
                    self.position(),
                    self.macro_map(),
                    branch_models(branches@),
                ) == goal,
            decreases self.remaining(),
        {
            if self.kind() == TokenType::RBrace {
                return Ok(branches);
            }
            let target = match self.expression() {
                Ok(e) => e,
                Err(k) => {
                    return Err(k);
                },
            };
            if self.kind() != TokenType::MinusGT {
                return Err(ErrorKind::ExpectedArrow);
            }
            self.bump();
            let body = match self.expression() {
                Ok(e) => e,
                Err(k) => {
                    return Err(k);
                },
            };
            let branch = MatchBranch::new(target, body);
            proof {
                lemma_branch_models_push(branches@, branch);
            }
            branches.push(branch);
            if self.kind() == TokenType::Comma {
                self.bump();
            } else {
                return Ok(branches);
            }
        }
    }

    /// A `try` after its keyword, which is `mark`.
    pub fn try_expression(&mut self, mark: Token) -> (r: Result<Expr, ErrorKind>)
        ensures
            final(self).follows(
                old(self),
                r,
                grammar::try_expression(
                    old(self).stream(),
                    old(self).position(),
                    old(self).macro_map(),
                    mark@,
                ),
            ),
            r is Ok ==> final(self).position() > old(self).position(),
            proper_result(r),
        decreases old(self).remaining(), 51nat,
    {
        proof {
            use_type_invariant(&*self);
            try_expression_is_proper(self.stream(), self.position(), self.macro_map(), mark@);
        }
        let result = match self.expression() {
            Ok(e) => e,
            Err(k) => {
                return Err(k);
            },
        };
        let handler = match self.expression() {
            Ok(e) => e,
            Err(k) => {
                return Err(k);
            },
        };
        let success = if self.kind() == TokenType::Else {
            self.bump();
            match self.expression() {
                Ok(e) => e,
                Err(k) => {
                    return Err(k);
                },
            }
        } else {
            Expr::null(mark.clone())
        };
        Ok(try_node(mark, result, handler, success))
    }

    /// `unsafe`, which is `mark`, and the expression it marks.
    pub fn unsafe_expression(&mut self, mark: Token) -> (r: Result<Expr, ErrorKind>)
        ensures
            final(self).follows(
                old(self),
                r,
                grammar::unsafe_expression(
                    old(self).stream(),
                    old(self).position(),
                    old(self).macro_map(),
                    mark@,
                ),
            ),
            r is Ok ==> final(self).position() > old(self).position(),
            proper_result(r),
        decreases old(self).remaining(), 51nat,
    {
        proof {
            use_type_invariant(&*self);
            wrapped_is_proper(self.stream(), self.position(), self.macro_map(), mark@);
        }
        let inner = match self.expression() {
            Ok(e) => e,
            Err(k) => {
                return Err(k);
            },
        };
        Ok(Expr::Unsafe { token: mark, expr: Box::new(inner) })
    }

    /// `$`, which is `mark`, and the expression handed to the shell.
    pub fn shell_expression(&mut self, mark: Token) -> (r: Result<Expr, ErrorKind>)
        ensures
            final(self).follows(
                old(self),
                r,
                grammar::shell_expression(
                    old(self).stream(),
                    old(self).position(),
                    old(self).macro_map(),
                    mark@,
                ),
            ),
            r is Ok ==> final(self).position() > old(self).position(),
            proper_result(r),
        decreases old(self).remaining(), 51nat,
    {
        proof {
            use_type_invariant(&*self);
            wrapped_is_proper(self.stream(), self.position(), self.macro_map(), mark@);
        }
        let inner = match self.expression() {
            Ok(e) => e,
            Err(k) => {
                return Err(k);
            },
        };
        Ok(Expr::Shell { token: mark, expr: Box::new(inner) })
    }

    /// `def` after its keyword: defines a new macro.
    pub fn define_macro(&mut self) -> (r: Result<Expr, ErrorKind>)
        ensures
            final(self).follows(
                old(self),
                r,
                grammar::define_macro(old(self).stream(), old(self).position(), old(self).macro_map()),
            ),
            r is Ok ==> final(self).position() > old(self).position(),
            proper_result(r),
        decreases old(self).remaining(), 51nat,
    {
        proof {
            use_type_invariant(&*self);
            define_macro_is_proper(self.stream(), self.position(), self.macro_map());
        }
        if self.kind() != TokenType::Id {
            return Err(ErrorKind::ExpectedIdentifier);
        }
        let name = self.take();
        proof {
            expression_is_proper(self.stream(), self.position(), self.macro_map());
        }
        let body = match self.expression() {
            Ok(e) => e,
            Err(k) => {
                return Err(k);
            },
        };
        if self.macro_defined(&name.lexeme) {
            Err(ErrorKind::MacroAlreadyDefined)
        } else {
            self.store_macro(name.lexeme.clone(), body);
            Ok(Expr::null(name))
        }
    }

    /// `redef` after its keyword: gives a defined macro a new tree.
    pub fn redefine_macro(&mut self) -> (r: Result<Expr, ErrorKind>)
        ensures
            final(self).follows(
                old(self),
                r,
                grammar::redefine_macro(old(self).stream(), old(self).position(), old(self).macro_map()),
            ),
            r is Ok ==> final(self).position() > old(self).position(),
            proper_result(r),
        decreases old(self).remaining(), 51nat,
    {
        proof {
            use_type_invariant(&*self);
            redefine_macro_is_proper(self.stream(), self.position(), self.macro_map());
        }
        if self.kind() != TokenType::Id {
            return Err(ErrorKind::ExpectedIdentifier);
        }
        let name = self.take();
        proof {
            expression_is_proper(self.stream(), self.position(), self.macro_map());
        }
        let body = match self.expression() {
            Ok(e) => e,
            Err(k) => {
                return Err(k);
            },
        };
        if self.macro_defined(&name.lexeme) {
            self.store_macro(name.lexeme.clone(), body);
            Ok(Expr::null(name))
        } else {
            Err(ErrorKind::MacroNotDefined)
        }
    }

    /// `#name`, after the `#`: a copy of the tree that the macro stands
    /// for.
    pub fn use_macro(&mut self) -> (r: Result<Expr, ErrorKind>)
        ensures
            final(self).follows(
                old(self),
                r,
                grammar::use_macro(old(self).stream(), old(self).position(), old(self).macro_map()),
            ),
            r is Ok ==> final(self).position() > old(self).position(),
            proper_result(r),
    {
        proof {
            use_type_invariant(&*self);
        }
        if self.kind() != TokenType::Id {
            return Err(ErrorKind::ExpectedIdentifier);
        }
        let name = self.take();
        match self.expand_macro(&name.lexeme) {
            Some(e) => Ok(e),
            None => Err(ErrorKind::MacroUndefined),
        }
    }
}

} // verus!
