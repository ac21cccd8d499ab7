//! The parser: a cursor over a stream of tokens, and one method for each
//! rule of the grammar.

use vstd::prelude::*;
use vstd::string::*;
use crate::ast::{expr_views, lemma_expr_views_push, lemma_token_views_push, Expr, ExprView};
use crate::error::{error_views, ErrorKind, ErrorView, ParserError};
use crate::grammar;
use crate::grammar::{
    at_end, end_free, kind_at, node_stream, parsed, previous_at, token_at, well_formed, MacroMap,
    Step,
};
use crate::nodes::{optional_view, result_view};
use crate::local::{agree, form_is_settled, settled_for_all};
use crate::macros::MacroTable;
use crate::proper::{proper, proper_macros, proper_result};
use crate::text::{line_at, line_of};
use crate::token::{token_views, Token, TokenType, TokenView};

verus! {

/// The parser of one source unit: the tokens, the cursor, the errors found
/// so far, and the macros defined so far.
pub struct Parser {
    tokens: Vec<Token>,
    pos: usize,
    errors: Vec<ParserError>,
    macros: MacroTable,
    complete: bool,
}

/// What asking for the next form of a stream that is still coming in gives.
#[derive(Debug, PartialEq)]
pub enum Settled {
    /// A form was recognised, and more tokens cannot change it.
    Node(Expr),
    /// No form could be read where the cursor stood; the error is recorded
    /// and the cursor has moved on.
    Failed,
    /// The tokens taken so far do not settle the next form.
    Pending,
    /// The stream is complete and the cursor stands at its end.
    Done,
}

impl Settled {
    /// The node, if a form was recognised.
    pub fn into_node(self) -> (node: Option<Expr>)
        ensures
            optional_view(node) == settled_node(self),
    {
        match self {
            Settled::Node(e) => Some(e),
            _ => None,
        }
    }
}

/// The node that a settled form hands on.
pub open spec fn settled_node(r: Settled) -> Option<ExprView> {
    match r {
        Settled::Node(e) => Some(e@),
        _ => None,
    }
}

/// The end-of-file token that stands in for the rest of a stream after
/// `token`.
pub open spec fn end_after(token: TokenView) -> TokenView {
    TokenView { kind: TokenType::EOF, lexeme: Seq::empty(), line: token.line, col: token.col }
}

/// A stream that is still coming in, with one more token taken: the token
/// takes the place of the end that stood in for the rest, and unless it is
/// the end-of-file token itself, a new end stands in after it.
pub open spec fn fed(ts: Seq<TokenView>, token: TokenView) -> Seq<TokenView> {
    if token.kind == TokenType::EOF {
        ts.drop_last().push(token)
    } else {
        ts.drop_last().push(token).push(end_after(token))
    }
}

/// A stream made to end in an end-of-file token: one that does so already
/// is left as it is; to any other one such token is added, at the place of
/// the last token, or at line 1, column 1 of an empty stream.
pub open spec fn terminated(ts: Seq<TokenView>) -> Seq<TokenView> {
    if well_formed(ts) {
        ts
    } else {
        ts.push(
            TokenView {
                kind: TokenType::EOF,
                lexeme: Seq::empty(),
                line: if ts.len() > 0 {
                    ts.last().line
                } else {
                    1
                },
                col: if ts.len() > 0 {
                    ts.last().col
                } else {
                    1
                },
            },
        )
    }
}

/// The source line of an error at line `line`, counted from 1; empty where
/// the source has no such line.
pub open spec fn source_line(source: Seq<char>, line: usize) -> Seq<char> {
    if line == 0 {
        Seq::empty()
    } else {
        line_at(source, (line - 1) as nat)
    }
}

/// The report of a run of errors: for each, in order, its headline and
/// then the source line it points at.
pub open spec fn report_lines(errors: Seq<ErrorView>, filename: Seq<char>, source: Seq<char>) -> Seq<
    Seq<char>,
>
    decreases errors.len(),
{
    if errors.len() == 0 {
        Seq::empty()
    } else {
        report_lines(errors.drop_last(), filename, source).push(
            errors.last().headline(filename),
        ).push(source_line(source, errors.last().line))
    }
}

/// The texts of a run of strings, in order.
pub open spec fn string_views(lines: Seq<String>) -> Seq<Seq<char>> {
    Seq::new(lines.len(), |i: int| lines[i]@)
}

impl Parser {
    /// The tokens of the source unit.
    pub closed spec fn stream(&self) -> Seq<TokenView> {
        token_views(self.tokens@)
    }

    /// The position of the current token in the stream.
    pub closed spec fn position(&self) -> nat {
        self.pos as nat
    }

    /// The macros defined so far.
    pub closed spec fn macro_map(&self) -> MacroMap {
        self.macros@
    }

    /// The errors found so far.
    pub closed spec fn diagnostics(&self) -> Seq<ErrorView> {
        error_views(self.errors@)
    }

    /// Whether the parts of the parser fit together.
    pub closed spec fn coherent(&self) -> bool {
        self.macros.wf() && self.pos < self.tokens.len()
    }

    /// Whether the parser is as it should be: the stream ends in an
    /// end-of-file token, the cursor stands on a token, and every macro
    /// stands for a proper tree that is not the end marker. This holds of
    /// every parser at all times.
    #[verifier::type_invariant]
    pub open spec fn wf(&self) -> bool {
        &&& self.coherent()
        &&& well_formed(self.stream())
        &&& self.position() < self.stream().len()
        &&& end_free(self.macro_map())
        &&& proper_macros(self.macro_map())
    }

    /// The parser went on from `before`: the same stream, the same errors,
    /// the cursor not before where it was.
    pub open spec fn continues(&self, before: &Parser) -> bool {
        &&& self.wf()
        &&& self.stream() == before.stream()
        &&& self.finished() == before.finished()
        &&& self.diagnostics() == before.diagnostics()
        &&& before.position() <= self.position() < self.stream().len()
    }

    /// The step that ends in this state with the result `out`.
    pub open spec fn yields<T>(&self, out: Result<T, ErrorKind>) -> Step<T> {
        Step { out, pos: self.position(), macros: self.macro_map() }
    }

    /// The parser went on from `before` by a rule that returned `r`, and
    /// `step` is what the grammar says of that rule: the two agree, and a
    /// tree that was recognised is not the end marker.
    pub open spec fn follows(&self, before: &Parser, r: Result<Expr, ErrorKind>, step: Step<ExprView>) -> bool {
        &&& self.continues(before)
        &&& self.yields(result_view(r)) == step
        &&& r matches Ok(e) ==> !(e@ is End)
    }

    /// How many tokens stand from the cursor on.
    pub open spec fn remaining(&self) -> int {
        self.stream().len() - self.position()
    }

    /// Whether the stream is complete: no token will be added to it.
    pub closed spec fn finished(&self) -> bool {
        self.complete
    }

    /// A parser at the start of `tokens`, with no errors and no macros.
    /// A stream that does not end in an end-of-file token is given one.
    /// The stream is complete.
    pub fn new(tokens: Vec<Token>) -> (parser: Parser)
        ensures
            parser.wf(),
            parser.finished(),
            parser.stream() == terminated(token_views(tokens@)),
            parser.position() == 0,
            parser.macro_map() == Map::<Seq<char>, ExprView>::empty(),
            parser.diagnostics() == Seq::<ErrorView>::empty(),
    {
        let mut tokens = tokens;
        let n = tokens.len();
        if n == 0 {
            let end = Token::new(TokenType::EOF, String::new(), 1, 1);
            proof {
                lemma_token_views_push(tokens@, end);
            }
            tokens.push(end);
        } else if tokens[n - 1].kind != TokenType::EOF {
            let end = Token::new(TokenType::EOF, String::new(), tokens[n - 1].line, tokens[n - 1].col);
            proof {
                lemma_token_views_push(tokens@, end);
            }
            tokens.push(end);
        }
        let parser = Parser {
            tokens,
            pos: 0,
            errors: Vec::new(),
            macros: MacroTable::new(),
            complete: true,
        };
        assert(parser.diagnostics() =~= Seq::<ErrorView>::empty());
        parser
    }

    /// A parser of a stream that is still to come: so far it holds nothing
    /// but the end that stands in for the rest.
    pub fn open() -> (parser: Parser)
        ensures
            parser.wf(),
            !parser.finished(),
            parser.stream() == terminated(Seq::empty()),
            parser.position() == 0,
            parser.macro_map() == Map::<Seq<char>, ExprView>::empty(),
            parser.diagnostics() == Seq::<ErrorView>::empty(),
    {
        let mut tokens: Vec<Token> = Vec::new();
        let end = Token::new(TokenType::EOF, String::new(), 1, 1);
        proof {
            lemma_token_views_push(tokens@, end);
            assert(token_views(tokens@) =~= Seq::<TokenView>::empty());
        }
        tokens.push(end);
        let parser = Parser {
            tokens,
            pos: 0,
            errors: Vec::new(),
            macros: MacroTable::new(),
            complete: false,
        };
        assert(parser.diagnostics() =~= Seq::<ErrorView>::empty());
        parser
    }

    /// Whether the stream is complete.
    pub fn is_finished(&self) -> (finished: bool)
        ensures
            finished == self.finished(),
    {
        self.complete
    }

    /// Takes one more token of a stream that is still coming in. The
    /// end-of-file token completes the stream. A complete stream takes no
    /// more tokens.
    pub fn feed(&mut self, token: Token)
        ensures
            final(self).wf(),
            final(self).position() == old(self).position(),
            final(self).macro_map() == old(self).macro_map(),
            final(self).diagnostics() == old(self).diagnostics(),
            old(self).finished() ==> final(self).finished() && final(self).stream() == old(
                self,
            ).stream(),
            !old(self).finished() ==> final(self).finished() == (token.kind == TokenType::EOF)
                && final(self).stream() == fed(old(self).stream(), token@),
            agree(
                old(self).stream(),
                final(self).stream(),
                (old(self).stream().len() - 1) as nat,
            ),
    {
        proof {
            use_type_invariant(&*self);
        }
        if self.complete {
            return ;
        }
        let mut taken = Parser::open();
        core::mem::swap(self, &mut taken);
        proof {
            use_type_invariant(&taken);
        }
        let ghost before = taken.tokens@;
        let Parser { tokens, pos, errors, macros, complete } = taken;
        let mut tokens = tokens;
        tokens.pop();
        proof {
            use_type_invariant(&macros);
            assert(tokens@ =~= before.drop_last());
            assert(token_views(before.drop_last()) =~= token_views(before).drop_last());
            lemma_token_views_push(tokens@, token);
        }
        let last = token.kind == TokenType::EOF;
        if last {
            tokens.push(token);
        } else {
            let end = Token::new(TokenType::EOF, String::new(), token.line, token.col);
            tokens.push(token);
            proof {
                lemma_token_views_push(tokens@, end);
            }
            tokens.push(end);
        }
        let mut built = Parser { tokens, pos, errors, macros, complete: last };
        assert(built.stream() == fed(token_views(before), token@));
        core::mem::swap(self, &mut built);
    }

    /// Completes the stream as it is: no more tokens will come.
    pub fn close(&mut self)
        ensures
            final(self).wf(),
            final(self).finished(),
            final(self).stream() == old(self).stream(),
            final(self).position() == old(self).position(),
            final(self).macro_map() == old(self).macro_map(),
            final(self).diagnostics() == old(self).diagnostics(),
    {
        proof {
            use_type_invariant(&*self);
        }
        self.complete = true;
    }

    /// The errors found so far.
    pub fn errors(&self) -> (errors: &Vec<ParserError>)
        ensures
            error_views(errors@) == self.diagnostics(),
    {
        &self.errors
    }

    /// Ends the parse and hands out the errors found.
    pub fn into_errors(self) -> (errors: Vec<ParserError>)
        ensures
            error_views(errors@) == self.diagnostics(),
    {
        self.errors
    }

    /// The kind of the current token.
    pub fn kind(&self) -> (kind: TokenType)
        ensures
            kind == kind_at(self.stream(), self.position()),
    {
        proof {
            use_type_invariant(self);
        }
        self.tokens[self.pos].kind
    }

    /// Whether the current token is of kind `kind`.
    pub fn check_current(&self, kind: TokenType) -> (same: bool)
        ensures
            same == (kind_at(self.stream(), self.position()) == kind),
    {
        proof {
            use_type_invariant(self);
        }
        self.tokens[self.pos].kind == kind
    }

    /// Whether the cursor stands at the end of the stream.
    pub fn is_end(&self) -> (end: bool)
        ensures
            end == at_end(self.stream(), self.position()),
    {
        proof {
            use_type_invariant(self);
        }
        self.tokens[self.pos].kind == TokenType::EOF
    }

    /// A copy of the current token.
    pub fn current(&self) -> (token: Token)
        ensures
            token@ == token_at(self.stream(), self.position()),
    {
        proof {
            use_type_invariant(self);
        }
        self.tokens[self.pos].clone()
    }

    /// A copy of the token consumed last; at the start, of the first token.
    pub fn previous(&self) -> (token: Token)
        ensures
            token@ == previous_at(self.stream(), self.position()),
    {
        proof {
            use_type_invariant(self);
        }
        if self.pos == 0 {
            self.tokens[0].clone()
        } else {
            self.tokens[self.pos - 1].clone()
        }
    }

    /// Moves the cursor to the next token, unless it stands at the end.
    pub fn advance(&mut self)
        ensures
            final(self).continues(old(self)),
            final(self).macro_map() == old(self).macro_map(),
            final(self).position() == grammar::after(old(self).stream(), old(self).position()),
    {
        proof {
            use_type_invariant(&*self);
        }
        if !self.is_end() {
            self.pos = self.pos + 1;
        }
    }

    /// Consumes the current token if its kind is one of `these`, and says
    /// whether it is.
    pub fn does_match(&mut self, these: &[TokenType]) -> (matched: bool)
        ensures
            final(self).continues(old(self)),
            final(self).macro_map() == old(self).macro_map(),
            matched == these@.contains(kind_at(old(self).stream(), old(self).position())),
            final(self).position() == if matched {
                grammar::after(old(self).stream(), old(self).position())
            } else {
                old(self).position()
            },
    {
        proof {
            use_type_invariant(&*self);
        }
        let kind = self.kind();
        let mut found = false;
        let mut i: usize = 0;
        while i < these.len() && !found
            invariant
                i <= these.len(),
                !found ==> forall|j: int| 0 <= j < i ==> these@[j] != kind,
                found ==> these@.contains(kind),
            decreases these.len() - i + if found { 0int } else { 1int },
        {
            if these[i] == kind {
                assert(these@[i as int] == kind);
                found = true;
            } else {
                i = i + 1;
            }
        }
        if found {
            self.advance();
        }
        found
    }

    /// Moves the cursor past the current token, which is not the last.
    pub(crate) fn bump(&mut self)
        requires
            !at_end(old(self).stream(), old(self).position()),
        ensures
            final(self).continues(old(self)),
            final(self).macro_map() == old(self).macro_map(),
            final(self).position() == old(self).position() + 1,
    {
        proof {
            use_type_invariant(&*self);
        }
        self.pos = self.pos + 1;
    }

    /// Consumes the current token, which is not the last, and hands it out.
    pub(crate) fn take(&mut self) -> (token: Token)
        requires
            !at_end(old(self).stream(), old(self).position()),
        ensures
            final(self).continues(old(self)),
            final(self).macro_map() == old(self).macro_map(),
            final(self).position() == old(self).position() + 1,
            token@ == token_at(old(self).stream(), old(self).position()),
    {
        proof {
            use_type_invariant(&*self);
        }
        let token = self.tokens[self.pos].clone();
        self.pos = self.pos + 1;
        token
    }

    /// Whether a macro called `name` is defined.
    pub fn macro_defined(&self, name: &String) -> (defined: bool)
        ensures
            defined == self.macro_map().dom().contains(name@),
    {
        proof {
            use_type_invariant(self);
        }
        self.macros.contains(name)
    }

    /// Lets the macro `name` stand for `body` from now on.
    pub(crate) fn store_macro(&mut self, name: String, body: Expr)
        requires
            !(body@ is End),
            proper(body@),
        ensures
            final(self).continues(old(self)),
            final(self).position() == old(self).position(),
            final(self).macro_map() == old(self).macro_map().insert(name@, body@),
    {
        proof {
            use_type_invariant(&*self);
        }
        let mut table = MacroTable::new();
        core::mem::swap(&mut self.macros, &mut table);
        table.store(name, body);
        core::mem::swap(&mut self.macros, &mut table);
    }

    /// A copy of the tree that the macro `name` stands for, if it is
    /// defined.
    pub fn expand_macro(&self, name: &String) -> (tree: Option<Expr>)
        ensures
            match tree {
                Some(e) => self.macro_map().dom().contains(name@) && e@ == self.macro_map()[name@]
                    && !(e@ is End) && proper(e@),
                None => !self.macro_map().dom().contains(name@),
            },
    {
        proof {
            use_type_invariant(self);
        }
        self.macros.expand(name)
    }

    /// Records an error of kind `kind` at the current token.
    pub fn add_error(&mut self, kind: ErrorKind)
        ensures
            final(self).wf(),
            final(self).stream() == old(self).stream(),
            final(self).finished() == old(self).finished(),
            final(self).position() == old(self).position(),
            final(self).macro_map() == old(self).macro_map(),
            final(self).diagnostics() == old(self).diagnostics().push(
                grammar::error_at(old(self).stream(), old(self).position(), kind),
            ),
    {
        proof {
            use_type_invariant(&*self);
        }
        let error = ParserError::new(
            kind.message(),
            self.tokens[self.pos].line,
            self.tokens[self.pos].col,
        );
        let mut errors: Vec<ParserError> = Vec::new();
        core::mem::swap(&mut self.errors, &mut errors);
        errors.push(error);
        core::mem::swap(&mut self.errors, &mut errors);
        assert(self.diagnostics() =~= old(self).diagnostics().push(
            grammar::error_at(old(self).stream(), old(self).position(), kind),
        ));
    }

    /// Whether skipping stops at the current token: it can begin a
    /// top-level form, or it is the end.
    pub fn at_restart(&self) -> (stops: bool)
        ensures
            stops == (at_end(self.stream(), self.position()) || grammar::is_restart(
                kind_at(self.stream(), self.position()),
            )),
    {
        let kind = self.kind();
        kind == TokenType::EOF || kind == TokenType::Func || kind == TokenType::Match || kind
            == TokenType::Def || kind == TokenType::Redef || kind == TokenType::Try || kind
            == TokenType::Unsafe || kind == TokenType::Id
    }

    /// Moves the cursor to where parsing resumes after an error: the
    /// current token is dropped whatever it is, and the tokens after it are
    /// skipped up to the first that can begin a top-level form, or to the
    /// end.
    pub fn synchronize(&mut self)
        ensures
            final(self).continues(old(self)),
            final(self).macro_map() == old(self).macro_map(),
            final(self).position() == grammar::synchronize(old(self).stream(), old(self).position()),
            !at_end(old(self).stream(), old(self).position()) ==> final(self).position() > old(
                self,
            ).position(),
    {
        proof {
            use_type_invariant(&*self);
        }
        if self.is_end() {
            return ;
        }
        self.bump();
        let ghost ts = self.stream();
        let ghost goal = grammar::skip_to_restart(ts, self.position());
        while !self.at_restart()
            invariant
                self.continues(old(self)),
                self.macro_map() == old(self).macro_map(),
                ts == self.stream(),
                self.position() > old(self).position(),
                grammar::skip_to_restart(ts, self.position()) == goal,
                goal == grammar::synchronize(old(self).stream(), old(self).position()),
            decreases self.remaining(),
        {
            self.bump();
        }
    }

    /// One top-level form. An expression is handed out. Where none can be
    /// read, the error is recorded at the token at which the expression
    /// failed, the cursor moves on to where parsing resumes, and nothing
    /// is handed out.
    pub fn next_form(&mut self) -> (node: Option<Expr>)
        ensures
            final(self).wf(),
            final(self).stream() == old(self).stream(),
            final(self).finished() == old(self).finished(),
            ({
                let turn = grammar::top_level(
                    old(self).stream(),
                    old(self).position(),
                    old(self).macro_map(),
                );
                &&& optional_view(node) == turn.node
                &&& final(self).diagnostics() == grammar::with_optional(
                    old(self).diagnostics(),
                    turn.error,
                )
                &&& final(self).position() == turn.pos
                &&& final(self).macro_map() == turn.macros
            }),
            old(self).position() <= final(self).position() < final(self).stream().len(),
            !at_end(old(self).stream(), old(self).position()) ==> final(self).position() > old(
                self,
            ).position(),
            node matches Some(e) ==> !(e@ is End) && proper(e@),
    {
        proof {
            use_type_invariant(&*self);
        }
        match self.expression() {
            Ok(e) => Some(e),
            Err(kind) => {
                self.add_error(kind);
                self.synchronize();
                None
            },
        }
    }

    /// Whether the next form is settled: the cursor does not stand at the
    /// end, and the stream is complete or the form ends before the last
    /// token taken.
    pub open spec fn settles(&self) -> bool {
        &&& !at_end(self.stream(), self.position())
        &&& self.finished() || grammar::top_level(
            self.stream(),
            self.position(),
            self.macro_map(),
        ).pos + 1 < self.stream().len()
    }

    /// The next form, if the tokens taken so far settle it. A settled form
    /// is read as [`Parser::next_form`] reads it, and it is the form that
    /// every stream gives that goes on from the tokens taken. Where the
    /// form is not settled, nothing changes.
    #[verifier::rlimit(50)]
    pub fn next_settled(&mut self) -> (r: Settled)
        ensures
            final(self).wf(),
            final(self).stream() == old(self).stream(),
            final(self).finished() == old(self).finished(),
            r is Done <==> old(self).finished() && at_end(old(self).stream(), old(self).position()),
            r is Pending <==> !old(self).finished() && !old(self).settles(),
            old(self).settles() ==> ({
                let turn = grammar::top_level(
                    old(self).stream(),
                    old(self).position(),
                    old(self).macro_map(),
                );
                &&& settled_node(r) == turn.node
                &&& r is Node <==> turn.node is Some
                &&& final(self).diagnostics() == grammar::with_optional(
                    old(self).diagnostics(),
                    turn.error,
                )
                &&& final(self).position() == turn.pos
                &&& final(self).position() > old(self).position()
                &&& final(self).macro_map() == turn.macros
                &&& !old(self).finished() ==> settled_for_all(
                    old(self).stream(),
                    old(self).position(),
                    old(self).macro_map(),
                )
            }),
            !old(self).settles() ==> {
                &&& final(self).position() == old(self).position()
                &&& final(self).macro_map() == old(self).macro_map()
                &&& final(self).diagnostics() == old(self).diagnostics()
            },
    {
        proof {
            use_type_invariant(&*self);
        }
        if self.is_end() {
            return if self.complete {
                Settled::Done
            } else {
                Settled::Pending
            };
        }
        if self.complete {
            return match self.next_form() {
                Some(e) => Settled::Node(e),
                None => Settled::Failed,
            };
        }
        let saved_pos = self.pos;
        let saved_errors = self.errors.len();
        let saved_macros = self.macros.duplicate();
        let node = self.next_form();
        if self.pos + 1 < self.tokens.len() {
            proof {
                form_is_settled(old(self).stream(), old(self).position(), old(self).macro_map());
            }
            match node {
                Some(e) => Settled::Node(e),
                None => Settled::Failed,
            }
        } else {
            self.restore(saved_pos, saved_errors, saved_macros);
            assert(self.diagnostics() =~= old(self).diagnostics());
            Settled::Pending
        }
    }

    /// Puts the cursor, the errors and the macros back to what they were.
    fn restore(&mut self, pos: usize, errors: usize, macros: MacroTable)
        requires
            pos < old(self).stream().len(),
            errors <= old(self).diagnostics().len(),
            end_free(macros@),
            proper_macros(macros@),
        ensures
            final(self).wf(),
            final(self).stream() == old(self).stream(),
            final(self).finished() == old(self).finished(),
            final(self).position() == pos,
            final(self).macro_map() == macros@,
            final(self).diagnostics() == old(self).diagnostics().take(errors as int),
    {
        proof {
            use_type_invariant(&*self);
        }
        self.pos = pos;
        let mut kept: Vec<ParserError> = Vec::new();
        core::mem::swap(&mut self.errors, &mut kept);
        kept.truncate(errors);
        core::mem::swap(&mut self.errors, &mut kept);
        let mut saved = macros;
        proof {
            use_type_invariant(&saved);
        }
        core::mem::swap(&mut self.macros, &mut saved);
        assert(self.diagnostics() =~= old(self).diagnostics().take(errors as int));
    }

    /// Parses the stream from the cursor to its end. The nodes recognised
    /// are handed out in source order, and after them the end marker, which
    /// occurs nowhere else; the errors found are recorded.
    pub fn parse(&mut self) -> (nodes: Vec<Expr>)
        ensures
            final(self).wf(),
            final(self).stream() == old(self).stream(),
            final(self).finished() == old(self).finished(),
            at_end(final(self).stream(), final(self).position()),
            ({
                let outcome = grammar::program(
                    old(self).stream(),
                    old(self).position(),
                    old(self).macro_map(),
                    Seq::empty(),
                    old(self).diagnostics(),
                );
                &&& expr_views(nodes@) == outcome.nodes.push(ExprView::End)
                &&& final(self).diagnostics() == outcome.errors
                &&& final(self).position() == outcome.pos
                &&& final(self).macro_map() == outcome.macros
            }),
            nodes.len() > 0,
            nodes@.last()@ is End,
            forall|i: int| 0 <= i < nodes.len() - 1 ==> !((#[trigger] nodes@[i])@ is End),
    {
        proof {
            use_type_invariant(&*self);
        }
        let mut nodes: Vec<Expr> = Vec::new();
        assert(expr_views(nodes@) =~= Seq::<ExprView>::empty());
        let ghost goal = grammar::program(
            old(self).stream(),
            old(self).position(),
            old(self).macro_map(),
            Seq::empty(),
            old(self).diagnostics(),
        );
        while !self.is_end()
            invariant
                self.wf(),
                self.stream() == old(self).stream(),
                self.finished() == old(self).finished(),
                goal == grammar::program(
                    old(self).stream(),
                    old(self).position(),
                    old(self).macro_map(),
                    Seq::empty(),
                    old(self).diagnostics(),
                ),
                grammar::program(
                    self.stream(),
                    self.position(),
                    self.macro_map(),
                    expr_views(nodes@),
                    self.diagnostics(),
                ) == goal,
                forall|i: int| 0 <= i < nodes.len() ==> !((#[trigger] nodes@[i])@ is End),
            decreases self.remaining(),
        {
            match self.next_form() {
                Some(e) => {
                    proof {
                        lemma_expr_views_push(nodes@, e);
                    }
                    nodes.push(e);
                },
                None => {},
            }
        }
        proof {
            lemma_expr_views_push(nodes@, Expr::End);
        }
        nodes.push(Expr::End);
        nodes
    }

    /// Whether any error was found.
    pub fn failed(&self) -> (failed: bool)
        ensures
            failed == (self.diagnostics().len() > 0),
    {
        self.errors.len() > 0
    }

    /// The report of the errors found: for each, in order, its headline
    /// for the file called `filename`, and then the line of `source` that
    /// it points at.
    pub fn report_errors(&self, filename: &str, source: &String) -> (lines: Vec<String>)
        ensures
            string_views(lines@) == report_lines(self.diagnostics(), filename@, source@),
    {
        let ghost all = self.diagnostics();
        let mut lines: Vec<String> = Vec::new();
        let mut i: usize = 0;
        assert(string_views(lines@) =~= Seq::<Seq<char>>::empty());
        assert(all.take(0) =~= Seq::<ErrorView>::empty());
        while i < self.errors.len()
            invariant
                i <= self.errors.len(),
                all == self.diagnostics(),
                string_views(lines@) == report_lines(all.take(i as int), filename@, source@),
            decreases self.errors.len() - i,
        {
            let error = &self.errors[i];
            let headline = error.format(filename);
            let context = if error.line == 0 {
                String::new()
            } else {
                line_of(source.as_str(), error.line - 1)
            };
            proof {
                assert(all.take(i + 1).drop_last() =~= all.take(i as int));
                assert(all.take(i + 1).last() == error@);
                assert(string_views(lines@.push(headline).push(context)) =~= string_views(
                    lines@,
                ).push(headline@).push(context@));
            }
            lines.push(headline);
            lines.push(context);
            i = i + 1;
        }
        assert(all.take(self.errors.len() as int) =~= all);
        lines
    }
}

/// Parses a whole stream of tokens from its start, with no macros defined
/// beforehand. Hands out the nodes recognised, in source order and with the
/// end marker after them, and the errors found, in source order.
pub fn parse_tokens(tokens: Vec<Token>) -> (r: (Vec<Expr>, Vec<ParserError>))
    ensures
        expr_views(r.0@) == node_stream(terminated(token_views(tokens@))),
        error_views(r.1@) == parsed(terminated(token_views(tokens@))).errors,
        r.0.len() > 0,
        r.0@.last()@ is End,
        forall|i: int| 0 <= i < r.0.len() - 1 ==> !((#[trigger] r.0@[i])@ is End),
{
    let mut parser = Parser::new(tokens);
    let nodes = parser.parse();
    (nodes, parser.into_errors())
}

/// The stream that a parser holds after it was opened and has taken the
/// first `k` tokens of `ts`.
pub open spec fn taken(ts: Seq<TokenView>, k: nat) -> Seq<TokenView>
    decreases k,
{
    if k == 0 {
        terminated(Seq::empty())
    } else {
        fed(taken(ts, (k - 1) as nat), ts[k - 1])
    }
}

/// Whether none of the first `k` tokens of `ts` is the end-of-file token.
pub open spec fn none_ends(ts: Seq<TokenView>, k: nat) -> bool {
    forall|i: int| 0 <= i < k ==> (#[trigger] ts[i]).kind != TokenType::EOF
}

/// What a parser has taken begins the stream: after the first `k` tokens
/// of `ts`, none of them the end, it holds those `k` tokens and one end
/// that stands in for the rest.
pub proof fn taken_tokens_begin_the_stream(ts: Seq<TokenView>, k: nat)
    requires
        k <= ts.len(),
        none_ends(ts, k),
    ensures
        taken(ts, k).len() == k + 1,
        agree(taken(ts, k), ts, k),
        well_formed(taken(ts, k)),
        k > 0 ==> taken(ts, k) == terminated(ts.take(k as int)),
    decreases k,
{
    if k > 0 {
        taken_tokens_begin_the_stream(ts, (k - 1) as nat);
        let before = taken(ts, (k - 1) as nat);
        let after = taken(ts, k);
        assert(after == before.drop_last().push(ts[k - 1]).push(end_after(ts[k - 1])));
        assert forall|i: int| 0 <= i < k implies after[i] == ts[i] by {
            if i < k - 1 {
                assert(after[i] == before[i]);
            }
        }
        assert(after =~= ts.take(k as int).push(end_after(ts[k - 1])));
        assert(ts.take(k as int).last() == ts[k - 1]);
    }
}

/// Taking the end completes the stream: after the tokens of `ts` up to and
/// with its first end-of-file token, a parser holds exactly those tokens.
pub proof fn taking_the_end_completes(ts: Seq<TokenView>, k: nat)
    requires
        k < ts.len(),
        none_ends(ts, k),
        ts[k as int].kind == TokenType::EOF,
    ensures
        taken(ts, k + 1) == ts.take(k as int + 1),
{
    taken_tokens_begin_the_stream(ts, k);
    let before = taken(ts, k);
    assert(taken(ts, k + 1) == before.drop_last().push(ts[k as int]));
    assert(before.drop_last().push(ts[k as int]) =~= ts.take(k as int + 1));
}

} // verus!
