use frontend::ast::{CallArg, Expr, MatchBranch};
use frontend::error::ErrorKind;
use frontend::grammar::Level;
use frontend::macros::MacroTable;
use frontend::nodes::{
    bind, combine, compound, decorate, function_node, increment, ternary_node, try_node, Decorator,
};
use frontend::parser::{parse_tokens, Parser};
use frontend::token::{Token, TokenType};

fn token(kind: TokenType, lexeme: &str) -> Token {
    Token::new(kind, lexeme.to_string(), 1, 1)
}

fn name(lexeme: &str) -> Expr {
    Expr::variable(token(TokenType::Id, lexeme))
}

fn number(value: i64) -> Expr {
    Expr::integer(token(TokenType::Int, &value.to_string()), value)
}

#[test]
fn printed_forms() {
    let plus = token(TokenType::Plus, "+");
    assert_eq!(Expr::binary(name("a"), number(-3), plus.clone()).print(), "(Plus a -3)");
    assert_eq!(Expr::boolean(token(TokenType::True, "true"), true).print(), "true");
    assert_eq!(Expr::boolean(token(TokenType::False, "false"), false).print(), "false");
    assert_eq!(Expr::underscore(token(TokenType::Underscore, "_")).print(), ":_:");
    assert_eq!(Expr::null(token(TokenType::Null, "null")).print(), "null");
    assert_eq!(Expr::End.print(), "");
    let dot = token(TokenType::Dot, ".");
    let member = Expr::SetMember {
        instance: Box::new(name("a")),
        member: Box::new(name("b")),
        token: token(TokenType::Id, "b"),
        value: Box::new(number(1)),
    };
    assert_eq!(member.print(), "(set a.b 1)");
    let indexed = Expr::SetMember {
        instance: Box::new(name("a")),
        member: Box::new(number(0)),
        token: dot.clone(),
        value: Box::new(name("v")),
    };
    assert_eq!(indexed.print(), "(set a.0 v)");
    assert_eq!(indexed.deep_copy(), indexed);
    let access = Expr::Get { instance: Box::new(name("a")), value: Box::new(number(0)), token: dot };
    assert_eq!(access.print(), "a.0");
    let flagged = Expr::assign(true, true, true, token(TokenType::Id, "x"), name("x"), number(1));
    assert_eq!(flagged.print(), "(assignPIM x 1)");
    let mark = token(TokenType::LBrace, "{");
    let hollow = Expr::Block { token: mark.clone(), exprs: vec![Box::new(Expr::End)] };
    assert_eq!(hollow.print(), "(block)");
    let spaced = Expr::Block { token: mark.clone(), exprs: vec![Box::new(Expr::End), Box::new(Expr::End)] };
    assert_eq!(spaced.print(), "(block  )");
    let uneven = Expr::ObjectLiteral {
        token: mark.clone(),
        keys: vec![token(TokenType::Id, "a"), token(TokenType::Id, "b")],
        values: vec![Box::new(number(1))],
    };
    assert_eq!(uneven.print(), "(object a:1)");
    let keyless = Expr::ObjectLiteral { token: mark, keys: vec![], values: vec![Box::new(number(1))] };
    assert_eq!(keyless.print(), "(object)");
    let variadic = Expr::Func {
        public: true,
        name: None,
        params: vec![token(TokenType::Id, "a")],
        rest: Some(token(TokenType::Id, "r")),
        body: Box::new(name("a")),
    };
    assert_eq!(variadic.print(), "(lambda (a) a)");
    let atom = Expr::AtomLiteral { token: token(TokenType::Atom, "ok"), value: "ok".to_string() };
    assert_eq!(atom.print(), ":ok");
    assert_eq!(Expr::pretty_print(&vec![]), "");
    assert_eq!(Expr::pretty_print(&vec![name("a")]), "a");
    assert_eq!(Expr::pretty_print(&vec![name("a"), Expr::End, name("b")]), "a\n\nb");
}

#[test]
fn copies_share_nothing() {
    let call = Expr::call(
        name("f"),
        vec![CallArg::positional(number(1)), CallArg::unpacking(name("rest"))],
        token(TokenType::RParen, ")"),
    );
    let tree = Expr::matching(
        token(TokenType::Match, "match"),
        call,
        vec![MatchBranch::new(name("a"), Expr::lambda(vec![token(TokenType::Id, "x")], None, name("x")))],
    );
    let copy = tree.deep_copy();
    assert_eq!(copy, tree);
    assert_eq!(copy.print(), "(match (f 1 ...rest) a -> (lambda (x) x))");
    let mut changed = tree.clone();
    if let Expr::Match { branches, .. } = &mut changed {
        branches.clear();
    }
    assert_eq!(changed.print(), "(match (f 1 ...rest))");
    assert_eq!(tree.print(), copy.print());
}

#[test]
fn node_builders() {
    let eq = TokenType::Equal;
    assert_eq!(bind(name("a"), number(1), TokenType::ColonEq).unwrap().print(), "(assignI a 1)");
    assert_eq!(bind(name("a"), number(1), TokenType::PipeEq).unwrap().print(), "(assignPI a 1)");
    assert_eq!(bind(name("a"), number(1), TokenType::DollarEq).unwrap().print(), "(assignM a 1)");
    assert_eq!(bind(number(1), number(1), eq), Err(ErrorKind::InvalidAssignmentTarget));
    let inner = bind(name("b"), number(1), eq).unwrap();
    assert_eq!(bind(number(1), inner, eq), Err(ErrorKind::AssignmentAsValue));
    let access = Expr::Get {
        instance: Box::new(name("a")),
        value: Box::new(name("b")),
        token: token(TokenType::Dot, "."),
    };
    assert_eq!(bind(access, number(1), eq).unwrap().print(), "(set a.b 1)");
    let index = Expr::Get {
        instance: Box::new(name("a")),
        value: Box::new(number(0)),
        token: token(TokenType::Dot, "."),
    };
    let set = bind(index, number(1), eq).unwrap();
    assert_eq!(set.print(), "(set a.0 1)");
    match set {
        Expr::SetMember { instance, member, token, value } => {
            assert_eq!(*instance, name("a"));
            assert_eq!(*member, number(0));
            assert_eq!(token.kind, TokenType::Dot);
            assert_eq!(*value, number(1));
        }
        other => panic!("not a member assignment: {:?}", other),
    }
    let access = Expr::Get {
        instance: Box::new(name("a")),
        value: Box::new(name("b")),
        token: token(TokenType::Dot, "."),
    };
    let inner = bind(name("c"), number(1), eq).unwrap();
    assert_eq!(bind(access, inner, eq), Err(ErrorKind::AssignmentAsValue));
    let op = token(TokenType::MulEq, "*=");
    assert_eq!(compound(name("a"), number(2), op.clone()).unwrap().print(), "(assign a (Mul a 2))");
    assert_eq!(compound(number(1), number(2), op), Err(ErrorKind::ExpectedVariable));
    let minus = token(TokenType::DMinus, "--");
    assert_eq!(increment(name("a"), minus.clone()).unwrap().print(), "(assign a (Minus a 1))");
    assert_eq!(increment(number(1), minus), Err(ErrorKind::ExpectedVariable));
    let and = token(TokenType::And, "and");
    assert!(matches!(combine(Level::And, name("a"), name("b"), and.clone()), Expr::Logical { .. }));
    assert!(matches!(combine(Level::Or, name("a"), name("b"), and.clone()), Expr::Logical { .. }));
    assert!(matches!(combine(Level::Term, name("a"), name("b"), and), Expr::Binary { .. }));
    let mark = token(TokenType::Question, "?");
    assert_eq!(
        ternary_node(mark.clone(), name("c"), number(1), number(2)).print(),
        "(match c true -> 1 :_: -> 2)"
    );
    assert_eq!(
        try_node(mark.clone(), name("r"), name("h"), name("s")).print(),
        "(match (error? r) true -> h false -> s)"
    );
    let decorators = vec![
        Decorator { name: token(TokenType::Id, "first"), args: vec![CallArg::positional(number(1))] },
        Decorator { name: token(TokenType::Id, "second"), args: vec![] },
    ];
    assert_eq!(decorate(&decorators, name("f"), &mark).print(), "(second (first f 1))");
    assert_eq!(decorate(&vec![], name("f"), &mark).print(), "f");
    let made = function_node(
        true,
        Some(token(TokenType::Id, "g")),
        vec![],
        None,
        number(0),
        &decorators,
        &mark,
    );
    assert_eq!(made.unwrap().print(), "(assignPI g (second (first (lambda () 0) 1)))");
    let nameless = function_node(true, None, vec![], None, number(0), &decorators, &mark);
    assert_eq!(nameless, Err(ErrorKind::ExpectedFunctionName));
    let plain = function_node(true, None, vec![], None, number(0), &vec![], &mark);
    assert_eq!(plain.unwrap().print(), "(lambda () 0)");
}

#[test]
fn macro_table() {
    let mut table = MacroTable::new();
    let a = "a".to_string();
    let b = "b".to_string();
    assert!(!table.contains(&a));
    assert_eq!(table.expand(&a), None);
    table.store(a.clone(), number(1));
    table.store(b.clone(), number(2));
    assert!(table.contains(&a));
    assert!(table.contains(&b));
    assert!(!table.contains(&"c".to_string()));
    assert_eq!(table.expand(&a).map(|e| e.print()), Some("1".to_string()));
    table.store(a.clone(), number(3));
    assert_eq!(table.expand(&a).map(|e| e.print()), Some("3".to_string()));
    assert_eq!(table.expand(&b).map(|e| e.print()), Some("2".to_string()));
    let copy = table.duplicate();
    table.store(b.clone(), name("x"));
    assert_eq!(copy.expand(&b).map(|e| e.print()), Some("2".to_string()));
    assert_eq!(copy.expand(&a).map(|e| e.print()), Some("3".to_string()));
    assert!(!copy.contains(&"c".to_string()));
    assert_eq!(table.expand(&b).map(|e| e.print()), Some("x".to_string()));
    assert_eq!(table.expand(&a).map(|e| e.print()), Some("3".to_string()));
}

#[test]
fn a_whole_stream_at_once() {
    let tokens = vec![
        token(TokenType::Id, "a"),
        Token::new(TokenType::RParen, ")".to_string(), 2, 5),
        token(TokenType::Comma, ","),
        token(TokenType::Id, "b"),
        token(TokenType::EOF, ""),
    ];
    let (nodes, errors) = parse_tokens(tokens.clone());
    assert_eq!(nodes, vec![name("a"), name("b"), Expr::End]);
    assert_eq!(errors.len(), 1);
    assert_eq!(errors[0].format("unit"), "unit:2:5 error: unexpected token");
    let mut parser = Parser::new(tokens);
    assert_eq!(parser.parse(), nodes);
    assert_eq!(parser.errors(), &errors);
    let (nodes, errors) = parse_tokens(vec![]);
    assert_eq!(nodes, vec![Expr::End]);
    assert!(errors.is_empty());
}

#[test]
fn macros_of_a_parser() {
    let tokens = vec![
        token(TokenType::Def, "def"),
        token(TokenType::Id, "N"),
        token(TokenType::Int, "1"),
        token(TokenType::EOF, ""),
    ];
    let mut parser = Parser::new(tokens);
    let n = "N".to_string();
    assert!(!parser.macro_defined(&n));
    assert_eq!(parser.expand_macro(&n), None);
    assert_eq!(parser.next_form().map(|e| e.print()), Some("null".to_string()));
    assert!(parser.macro_defined(&n));
    assert_eq!(parser.expand_macro(&n), Some(number(1)));
    assert!(!parser.failed());
}
