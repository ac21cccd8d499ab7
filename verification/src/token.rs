//! Lexical tokens: what the parser consumes.

use vstd::prelude::*;
use vstd::string::*;

verus! {

/// The kind of a lexical token.
#[derive(Clone, Copy, Debug, PartialEq, Eq, Structural)]
pub enum TokenType {
    /// `(`
    LParen,
    /// `)`
    RParen,
    /// `[`
    LBracket,
    /// `]`
    RBracket,
    /// `{`
    LBrace,
    /// `}`
    RBrace,
    /// `,`
    Comma,
    /// `.`
    Dot,
    /// `:`
    Colon,
    /// `?`
    Question,
    /// `@`
    At,
    /// `#`
    Hash,
    /// `$`
    Dollar,
    /// `...`
    Ellipsis,
    /// `->`
    MinusGT,
    /// `|>`
    RPipe,
    /// `<|`
    LPipe,
    /// `<~`
    LTilde,
    /// `+`
    Plus,
    /// `-`
    Minus,
    /// `*`
    Mul,
    /// `/`
    Div,
    /// `%`
    Mod,
    /// `!`
    Bang,
    /// `not`
    Not,
    /// `!=`
    BangEq,
    /// `==`
    DEq,
    /// `>`
    GT,
    /// `>=`
    GTEq,
    /// `<`
    LT,
    /// `<=`
    LTEq,
    /// `&&`
    DAmp,
    /// `and`
    And,
    /// `||`
    DPipe,
    /// `or`
    Or,
    /// `=`
    Equal,
    /// `:=`
    ColonEq,
    /// `|=`
    PipeEq,
    /// `$=`
    DollarEq,
    /// `+=`
    PlusEq,
    /// `-=`
    MinusEq,
    /// `*=`
    MulEq,
    /// `/=`
    DivEq,
    /// `%=`
    ModEq,
    /// `++`
    DPlus,
    /// `--`
    DMinus,
    /// an identifier
    Id,
    /// a string literal
    Str,
    /// an integer literal
    Int,
    /// a floating-point literal
    Float,
    /// an atom, `:name`
    Atom,
    /// `_`
    Underscore,
    /// `true`
    True,
    /// `false`
    False,
    /// `null`
    Null,
    /// `func`
    Func,
    /// `public`
    Public,
    /// `match`
    Match,
    /// `try`
    Try,
    /// `else`
    Else,
    /// `unsafe`
    Unsafe,
    /// `def`
    Def,
    /// `redef`
    Redef,
    /// the end of the token stream
    EOF,
}

/// The name under which a token kind appears in printed syntax trees.
pub open spec fn kind_text(kind: TokenType) -> Seq<char> {
    match kind {
        TokenType::LParen => "LParen"@,
        TokenType::RParen => "RParen"@,
        TokenType::LBracket => "LBracket"@,
        TokenType::RBracket => "RBracket"@,
        TokenType::LBrace => "LBrace"@,
        TokenType::RBrace => "RBrace"@,
        TokenType::Comma => "Comma"@,
        TokenType::Dot => "Dot"@,
        TokenType::Colon => "Colon"@,
        TokenType::Question => "Question"@,
        TokenType::At => "At"@,
        TokenType::Hash => "Hash"@,
        TokenType::Dollar => "Dollar"@,
        TokenType::Ellipsis => "Ellipsis"@,
        TokenType::MinusGT => "MinusGT"@,
        TokenType::RPipe => "RPipe"@,
        TokenType::LPipe => "LPipe"@,
        TokenType::LTilde => "LTilde"@,
        TokenType::Plus => "Plus"@,
        TokenType::Minus => "Minus"@,
        TokenType::Mul => "Mul"@,
        TokenType::Div => "Div"@,
        TokenType::Mod => "Mod"@,
        TokenType::Bang => "Bang"@,
        TokenType::Not => "Not"@,
        TokenType::BangEq => "BangEq"@,
        TokenType::DEq => "DEq"@,
        TokenType::GT => "GT"@,
        TokenType::GTEq => "GTEq"@,
        TokenType::LT => "LT"@,
        TokenType::LTEq => "LTEq"@,
        TokenType::DAmp => "DAmp"@,
        TokenType::And => "And"@,
        TokenType::DPipe => "DPipe"@,
        TokenType::Or => "Or"@,
        TokenType::Equal => "Equal"@,
        TokenType::ColonEq => "ColonEq"@,
        TokenType::PipeEq => "PipeEq"@,
        TokenType::DollarEq => "DollarEq"@,
        TokenType::PlusEq => "PlusEq"@,
        TokenType::MinusEq => "MinusEq"@,
        TokenType::MulEq => "MulEq"@,
        TokenType::DivEq => "DivEq"@,
        TokenType::ModEq => "ModEq"@,
        TokenType::DPlus => "DPlus"@,
        TokenType::DMinus => "DMinus"@,
        TokenType::Id => "Id"@,
        TokenType::Str => "Str"@,
        TokenType::Int => "Int"@,
        TokenType::Float => "Float"@,
        TokenType::Atom => "Atom"@,
        TokenType::Underscore => "Underscore"@,
        TokenType::True => "True"@,
        TokenType::False => "False"@,
        TokenType::Null => "Null"@,
        TokenType::Func => "Func"@,
        TokenType::Public => "Public"@,
        TokenType::Match => "Match"@,
        TokenType::Try => "Try"@,
        TokenType::Else => "Else"@,
        TokenType::Unsafe => "Unsafe"@,
        TokenType::Def => "Def"@,
        TokenType::Redef => "Redef"@,
        TokenType::EOF => "EOF"@,
    }
}

/// The name of a token kind, as text.
pub fn kind_name(kind: TokenType) -> (name: &'static str)
    ensures
        name@ == kind_text(kind),
{
    match kind {
        TokenType::LParen => "LParen",
        TokenType::RParen => "RParen",
        TokenType::LBracket => "LBracket",
        TokenType::RBracket => "RBracket",
        TokenType::LBrace => "LBrace",
        TokenType::RBrace => "RBrace",
        TokenType::Comma => "Comma",
        TokenType::Dot => "Dot",
        TokenType::Colon => "Colon",
        TokenType::Question => "Question",
        TokenType::At => "At",
        TokenType::Hash => "Hash",
        TokenType::Dollar => "Dollar",
        TokenType::Ellipsis => "Ellipsis",
        TokenType::MinusGT => "MinusGT",
        TokenType::RPipe => "RPipe",
        TokenType::LPipe => "LPipe",
        TokenType::LTilde => "LTilde",
        TokenType::Plus => "Plus",
        TokenType::Minus => "Minus",
        TokenType::Mul => "Mul",
        TokenType::Div => "Div",
        TokenType::Mod => "Mod",
        TokenType::Bang => "Bang",
        TokenType::Not => "Not",
        TokenType::BangEq => "BangEq",
        TokenType::DEq => "DEq",
        TokenType::GT => "GT",
        TokenType::GTEq => "GTEq",
        TokenType::LT => "LT",
        TokenType::LTEq => "LTEq",
        TokenType::DAmp => "DAmp",
        TokenType::And => "And",
        TokenType::DPipe => "DPipe",
        TokenType::Or => "Or",
        TokenType::Equal => "Equal",
        TokenType::ColonEq => "ColonEq",
        TokenType::PipeEq => "PipeEq",
        TokenType::DollarEq => "DollarEq",
        TokenType::PlusEq => "PlusEq",
        TokenType::MinusEq => "MinusEq",
        TokenType::MulEq => "MulEq",
        TokenType::DivEq => "DivEq",
        TokenType::ModEq => "ModEq",
        TokenType::DPlus => "DPlus",
        TokenType::DMinus => "DMinus",
        TokenType::Id => "Id",
        TokenType::Str => "Str",
        TokenType::Int => "Int",
        TokenType::Float => "Float",
        TokenType::Atom => "Atom",
        TokenType::Underscore => "Underscore",
        TokenType::True => "True",
        TokenType::False => "False",
        TokenType::Null => "Null",
        TokenType::Func => "Func",
        TokenType::Public => "Public",
        TokenType::Match => "Match",
        TokenType::Try => "Try",
        TokenType::Else => "Else",
        TokenType::Unsafe => "Unsafe",
        TokenType::Def => "Def",
        TokenType::Redef => "Redef",
        TokenType::EOF => "EOF",
    }
}

/// One lexical token: its kind, its text, and where it stood in the source.
#[derive(Debug, PartialEq)]
pub struct Token {
    pub kind: TokenType,
    pub lexeme: String,
    pub line: usize,
    pub col: usize,
}

/// The mathematical value of a [`Token`].
pub struct TokenView {
    pub kind: TokenType,
    pub lexeme: Seq<char>,
    pub line: usize,
    pub col: usize,
}

impl TokenView {
    /// What a token contributes to a printed tree: an identifier stands by
    /// its lexeme, every other token by the name of its kind.
    pub open spec fn text(self) -> Seq<char> {
        if self.kind == TokenType::Id {
            self.lexeme
        } else {
            kind_text(self.kind)
        }
    }

    /// The same token with another kind.
    pub open spec fn with_kind(self, kind: TokenType) -> TokenView {
        TokenView { kind, lexeme: self.lexeme, line: self.line, col: self.col }
    }
}

impl View for Token {
    type V = TokenView;

    open spec fn view(&self) -> TokenView {
        TokenView { kind: self.kind, lexeme: self.lexeme@, line: self.line, col: self.col }
    }
}

impl Clone for Token {
    fn clone(&self) -> (copy: Self)
        ensures
            copy == *self,
    {
        Token { kind: self.kind, lexeme: self.lexeme.clone(), line: self.line, col: self.col }
    }
}

impl Token {
    /// A token of the given kind and text at `line`, `col`.
    pub fn new(kind: TokenType, lexeme: String, line: usize, col: usize) -> (token: Token)
        ensures
            token.kind == kind,
            token.lexeme == lexeme,
            token.line == line,
            token.col == col,
    {
        Token { kind, lexeme, line, col }
    }

    /// The token as it appears in a printed tree.
    pub fn print(&self) -> (text: String)
        ensures
            text@ == self@.text(),
    {
        if self.kind == TokenType::Id {
            self.lexeme.clone()
        } else {
            String::from_str(kind_name(self.kind))
        }
    }
}

/// The views of a run of tokens, in order.
pub open spec fn token_views(tokens: Seq<Token>) -> Seq<TokenView> {
    Seq::new(tokens.len(), |i: int| tokens[i]@)
}

/// Copies a run of tokens.
pub fn clone_tokens(tokens: &Vec<Token>) -> (copy: Vec<Token>)
    ensures
        copy@ == tokens@,
{
    let mut copy: Vec<Token> = Vec::new();
    let mut i: usize = 0;
    while i < tokens.len()
        invariant
            i <= tokens.len(),
            copy@ == tokens@.take(i as int),
        decreases tokens.len() - i,
    {
        copy.push(tokens[i].clone());
        assert(copy@ == tokens@.take(i + 1)) by {
            assert(tokens@.take(i + 1) =~= tokens@.take(i as int).push(tokens@[i as int]));
        }
        i = i + 1;
    }
    assert(tokens@.take(tokens@.len() as int) =~= tokens@);
    copy
}

} // verus!
