use frontend::ast::{CallArg, Expr};
use frontend::error::ErrorKind;
use frontend::parser::{Parser, Settled};
use frontend::token::{Token, TokenType};

fn keyword(word: &str) -> Option<TokenType> {
    match word {
        "true" => Some(TokenType::True),
        "false" => Some(TokenType::False),
        "null" => Some(TokenType::Null),
        "func" => Some(TokenType::Func),
        "public" => Some(TokenType::Public),
        "match" => Some(TokenType::Match),
        "try" => Some(TokenType::Try),
        "else" => Some(TokenType::Else),
        "unsafe" => Some(TokenType::Unsafe),
        "def" => Some(TokenType::Def),
        "redef" => Some(TokenType::Redef),
        "and" => Some(TokenType::And),
        "or" => Some(TokenType::Or),
        "not" => Some(TokenType::Not),
        "_" => Some(TokenType::Underscore),
        _ => None,
    }
}

fn operator(text: &str) -> Option<TokenType> {
    match text {
        "..." => Some(TokenType::Ellipsis),
        ":=" => Some(TokenType::ColonEq),
        "|=" => Some(TokenType::PipeEq),
        "|>" => Some(TokenType::RPipe),
        "||" => Some(TokenType::DPipe),
        "$=" => Some(TokenType::DollarEq),
        "+=" => Some(TokenType::PlusEq),
        "++" => Some(TokenType::DPlus),
        "-=" => Some(TokenType::MinusEq),
        "--" => Some(TokenType::DMinus),
        "->" => Some(TokenType::MinusGT),
        "*=" => Some(TokenType::MulEq),
        "/=" => Some(TokenType::DivEq),
        "%=" => Some(TokenType::ModEq),
        "==" => Some(TokenType::DEq),
        "!=" => Some(TokenType::BangEq),
        "<=" => Some(TokenType::LTEq),
        "<|" => Some(TokenType::LPipe),
        "<~" => Some(TokenType::LTilde),
        ">=" => Some(TokenType::GTEq),
        "&&" => Some(TokenType::DAmp),
        "(" => Some(TokenType::LParen),
        ")" => Some(TokenType::RParen),
        "[" => Some(TokenType::LBracket),
        "]" => Some(TokenType::RBracket),
        "{" => Some(TokenType::LBrace),
        "}" => Some(TokenType::RBrace),
        "," => Some(TokenType::Comma),
        "." => Some(TokenType::Dot),
        ":" => Some(TokenType::Colon),
        "?" => Some(TokenType::Question),
        "@" => Some(TokenType::At),
        "#" => Some(TokenType::Hash),
        "$" => Some(TokenType::Dollar),
        "+" => Some(TokenType::Plus),
        "-" => Some(TokenType::Minus),
        "*" => Some(TokenType::Mul),
        "/" => Some(TokenType::Div),
        "%" => Some(TokenType::Mod),
        "!" => Some(TokenType::Bang),
        "=" => Some(TokenType::Equal),
        "<" => Some(TokenType::LT),
        ">" => Some(TokenType::GT),
        _ => None,
    }
}

fn is_name_start(c: char) -> bool {
    c.is_alphabetic() || c == '_'
}

fn is_name_part(c: char) -> bool {
    c.is_alphanumeric() || c == '_'
}

/// A small tokenizer for the tests: it cuts source text into the tokens
/// that the parser consumes, with 1-based lines and columns.
fn lex(source: &str) -> Vec<Token> {
    let chars: Vec<char> = source.chars().collect();
    let mut tokens: Vec<Token> = Vec::new();
    let mut i = 0;
    let mut line = 1;
    let mut col = 1;
    while i < chars.len() {
        let c = chars[i];
        if c == '\n' {
            line += 1;
            col = 1;
            i += 1;
        } else if c.is_whitespace() {
            col += 1;
            i += 1;
        } else if c == '/' && i + 1 < chars.len() && chars[i + 1] == '/' {
            while i < chars.len() && chars[i] != '\n' {
                i += 1;
            }
        } else if c.is_ascii_digit() {
            let start = i;
            while i < chars.len() && chars[i].is_ascii_digit() {
                i += 1;
            }
            let mut kind = TokenType::Int;
            if i + 1 < chars.len() && chars[i] == '.' && chars[i + 1].is_ascii_digit() {
                kind = TokenType::Float;
                i += 1;
                while i < chars.len() && chars[i].is_ascii_digit() {
                    i += 1;
                }
            }
            let text: String = chars[start..i].iter().collect();
            tokens.push(Token::new(kind, text, line, col));
            col += i - start;
        } else if is_name_start(c) {
            let start = i;
            while i < chars.len() && is_name_part(chars[i]) {
                i += 1;
            }
            if i < chars.len() && chars[i] == '?' {
                i += 1;
            }
            let text: String = chars[start..i].iter().collect();
            let kind = match keyword(&text) {
                Some(kind) => kind,
                None => TokenType::Id,
            };
            tokens.push(Token::new(kind, text, line, col));
            col += i - start;
        } else if c == '"' || c == '`' {
            let start = i;
            i += 1;
            while i < chars.len() && chars[i] != c {
                i += 1;
            }
            let text: String = chars[start + 1..i].iter().collect();
            if i < chars.len() {
                i += 1;
            }
            tokens.push(Token::new(TokenType::Str, text, line, col));
            col += i - start;
        } else if c == ':' && i + 1 < chars.len() && is_name_start(chars[i + 1]) {
            let start = i;
            i += 1;
            while i < chars.len() && is_name_part(chars[i]) {
                i += 1;
            }
            let text: String = chars[start + 1..i].iter().collect();
            tokens.push(Token::new(TokenType::Atom, text, line, col));
            col += i - start;
        } else {
            let mut len = 3;
            let mut found: Option<TokenType> = None;
            while len > 0 && found.is_none() {
                if i + len <= chars.len() {
                    let text: String = chars[i..i + len].iter().collect();
                    found = operator(&text);
                }
                if found.is_none() {
                    len -= 1;
                }
            }
            match found {
                Some(kind) => {
                    let text: String = chars[i..i + len].iter().collect();
                    tokens.push(Token::new(kind, text, line, col));
                    i += len;
                    col += len;
                }
                None => panic!("no token starts with {:?}", c),
            }
        }
    }
    tokens.push(Token::new(TokenType::EOF, String::new(), line, col));
    tokens
}

/// Parses `source` and hands out the nodes before the end marker, and the
/// parser with the errors it found.
fn parse_all(source: &str) -> (Vec<Expr>, Parser) {
    let mut parser = Parser::new(lex(source));
    let mut nodes = parser.parse();
    let end = nodes.pop();
    assert_eq!(end, Some(Expr::End));
    (nodes, parser)
}

/// The printed form of what `source` parses to; the source must be free of
/// errors.
fn printed(source: &str) -> String {
    let (nodes, parser) = parse_all(source);
    assert!(!parser.failed(), "errors: {:?}", parser.errors());
    Expr::pretty_print(&nodes)
}

/// The error that parsing `source` as one expression gives.
fn error_of(source: &str) -> ErrorKind {
    let mut parser = Parser::new(lex(source));
    match parser.expression() {
        Ok(e) => panic!("parsed to {}", e.print()),
        Err(kind) => kind,
    }
}

#[test]
fn test_parser() {
    let source = r#"{printfln: println} := import("fmt")
{each: each} := import("std")

names := ["Nobu", "Sol", "Thomas", "Damian", "Ryan", "Zen", "Esfir"]
each(names) <| func(name) println("Hello, %{}!", name)


// fizzbuzz
std := import("std")

public func fizzbuzz(n) match ([n % 3, n % 5]) {
    [0, 0] -> "FizzBuzz",
    [0, _] -> "Fizz",
    [_, 0] -> "Buzz",
    _ -> string(n),
}

std.range(1, 101) |> std.each() <| func(n) {
    std.println(fizzbuzz(n))
}"#;
    let expected = r#"(assignI (object printfln:println) (import "fmt"))
(assignI (object each:each) (import "std"))
(assignI names (list "Nobu" "Sol" "Thomas" "Damian" "Ryan" "Zen" "Esfir"))
(each names (lambda (name) (println "Hello, %{}!" name)))
(assignI std (import "std"))
(func [public] fizzbuzz (n) (match ((list (Mod n 3) (Mod n 5))) (list 0 0) -> "FizzBuzz" (list 0 :_:) -> "Fizz" (list :_: 0) -> "Buzz" :_: -> (string n)))
std.std.(each (lambda (n) (block std.(println (fizzbuzz n)))))"#;

    assert_eq!(printed(source), expected);
}

#[test]
fn test_anonymous_func() {
    let source = r#"add := func (x, y) x + y"#;
    let expected = "(assignI add (lambda (x y) (Plus x y)))";
    assert_eq!(printed(source), expected);
}

#[test]
fn test_shorthand_anonymous_func() {
    let source = r#"something := -> 100"#;
    let expected = "(assignI something (lambda () 100))";
    assert_eq!(printed(source), expected);
}

#[test]
fn test_callback_func() {
    let source = r#"some_func() <~ (a, b) a + b"#;
    let expected = "(some_func (lambda (a b) (Plus a b)))";
    assert_eq!(printed(source), expected);
}

#[test]
fn test_atom_expr() {
    let source = "name := :nobu";
    let expected = "(assignI name :nobu)";
    assert_eq!(printed(source), expected);
}

#[test]
fn test_underscore_expr() {
    let source = "underscore := _";
    let expected = "(assignI underscore :_:)";
    assert_eq!(printed(source), expected);
}

#[test]
fn list_and_object_expr() {
    let source = r#"[1, 2, "abc", {name: "Nobuharu", age: 16}]"#;
    let expected = r#"(list 1 2 "abc" (object name:"Nobuharu" age:16))"#;
    assert_eq!(printed(source), expected);
}

#[test]
fn match_expr() {
    let source = r#"match name { "nobu" -> println("cool!"), _ -> { println("hello") } }"#;
    let expected = r#"(match name "nobu" -> (println "cool!") :_: -> (block (println "hello")))"#;
    assert_eq!(printed(source), expected);
}

#[test]
fn assign_expr() {
    let source = r#"[name, _] := ["Nobu", 16] [some_list.0, _] = [1, 3]"#;
    let expected = r#"(assignI (list name :_:) (list "Nobu" 16))
(assign (list some_list.0 :_:) (list 1 3))"#;
    assert_eq!(printed(source), expected);
}

#[test]
fn short_hand_match_expr() {
    let source = r#"name := cool? ? "nobu" : "sol""#;
    let expected = r#"(assignI name (match cool? true -> "nobu" :_: -> "sol"))"#;
    assert_eq!(printed(source), expected);
}

#[test]
fn unsafe_expr() {
    // Parentheses are a group of their own and are printed as one.
    let source = r#"result := unsafe ( 100 / 0 )"#;
    let expected = r#"(assignI result (unsafe ((Div 100 0))))"#;
    assert_eq!(printed(source), expected);
    let source = r#"result := unsafe 100 / 0"#;
    let expected = r#"(assignI result (unsafe (Div 100 0)))"#;
    assert_eq!(printed(source), expected);
}

#[test]
fn shell_operator() {
    let source = r#"result := $`echo "Hello\nWorld"`"#;
    let expected = r#"(assignI result (shell_op "echo "Hello\nWorld""))"#;
    assert_eq!(printed(source), expected);
}

#[test]
fn unary_expr() {
    let source = "not false";
    let expected = "(Not false)";
    assert_eq!(printed(source), expected);
}

#[test]
fn rest_param() {
    let source = "func some_func(_, nums+) {}";
    let expected = "(func some_func (Underscore nums+) (object))";
    assert_eq!(printed(source), expected);
}

#[test]
fn unpacking_arg() {
    let source = "some_func(...abc)";
    let expected = "(some_func ...abc)";
    assert_eq!(printed(source), expected);
}

#[test]
fn decorators() {
    let source = r#"@[some_decorator("something"), another] public func abc() {}"#;
    let expected = r#"(assignPI abc (another (some_decorator (lambda () (object)) "something")))"#;
    assert_eq!(printed(source), expected);
}

#[test]
fn macros() {
    let source = r#"def NAME "Nobu" println(#NAME) redef NAME "Sol" println(#NAME)"#;
    let expected = "null\n(println \"Nobu\")\nnull\n(println \"Sol\")";
    assert_eq!(printed(source), expected);
}

#[test]
fn try_expr() {
    let source = r#"try result {} else {}"#;
    let expected = r#"(match (error? result) true -> (object) false -> (object))"#;
    assert_eq!(printed(source), expected);
}

#[test]
fn operator_precedence() {
    assert_eq!(printed("1 + 2 * 3"), "(Plus 1 (Mul 2 3))");
    assert_eq!(printed("1 * 2 + 3"), "(Plus (Mul 1 2) 3)");
    assert_eq!(printed("1 - 2 - 3"), "(Minus (Minus 1 2) 3)");
    assert_eq!(printed("a < b == c > d"), "(DEq (LT a b) (GT c d))");
    assert_eq!(printed("a or b and c == d"), "(Or a (And b (DEq c d)))");
    assert_eq!(printed("a || b && c"), "(DPipe a (DAmp b c))");
    assert_eq!(printed("-a * !b"), "(Mul (Minus a) (Bang b))");
    assert_eq!(printed("a % b / c"), "(Div (Mod a b) c)");
    assert_eq!(printed("a <= b != c >= d"), "(BangEq (LTEq a b) (GTEq c d))");
}

#[test]
fn assignment_flags() {
    assert_eq!(printed("x := 1"), "(assignI x 1)");
    assert_eq!(printed("x |= 1"), "(assignPI x 1)");
    assert_eq!(printed("x = 1"), "(assign x 1)");
    assert_eq!(printed("x $= 1"), "(assignM x 1)");
}

#[test]
fn destructuring_validity() {
    assert_eq!(
        printed(r#"[name, _] := ["Nobu", 16]"#),
        r#"(assignI (list name :_:) (list "Nobu" 16))"#
    );
    assert_eq!(error_of("[1, 2] := [a, b]"), ErrorKind::InvalidListPattern);
    assert_eq!(printed("{a: x, b: _} = o"), "(assign (object a:x b::_:) o)");
    assert_eq!(printed("[a.b, c] $= o"), "(assignM (list a.b c) o)");
    assert_eq!(error_of("{a: 1} = o"), ErrorKind::InvalidObjectPattern);
}

#[test]
fn decorator_desugar() {
    assert_eq!(
        printed(r#"@[dec("x"), other] public func f() {}"#),
        r#"(assignPI f (other (dec (lambda () (object)) "x")))"#
    );
    assert_eq!(printed("@[d] func g(a) a"), "(assignI g (d (lambda (a) a)))");
    assert_eq!(printed("@[d(...xs, 1)] func g() 2"), "(assignI g (d (lambda () 2) ...xs 1))");
    assert_eq!(error_of("@[d] func () 1"), ErrorKind::ExpectedFunctionName);
}

#[test]
fn ternary_desugar() {
    assert_eq!(
        printed(r#"cool? ? "nobu" : "sol""#),
        r#"(match cool? true -> "nobu" :_: -> "sol")"#
    );
    assert_eq!(error_of("a ? b c"), ErrorKind::ExpectedColon);
}

#[test]
fn try_without_else() {
    assert_eq!(printed("try r h"), "(match (error? r) true -> h false -> null)");
}

#[test]
fn rest_parameter_ordering() {
    assert_eq!(error_of("func f(a, b+, c) {}"), ErrorKind::ParameterAfterRest);
    assert_eq!(printed("func f(a, b+) {}"), "(func f (a b+) (object))");
    assert_eq!(printed("func f(b+) {}"), "(func f (b+) (object))");
    assert_eq!(error_of("func f(a+, ) 1"), ErrorKind::ParameterAfterRest);
}

#[test]
fn macro_lifecycle() {
    assert_eq!(printed("def N 1 #N"), "null\n1");
    let (nodes, parser) = parse_all("def N 1 def N 2");
    assert_eq!(Expr::pretty_print(&nodes), "null");
    assert_eq!(parser.errors().len(), 1);
    assert_eq!(parser.errors()[0].msg, "macro with the same name is already defined");
    assert_eq!(error_of("redef N 2"), ErrorKind::MacroNotDefined);
    assert_eq!(error_of("#N"), ErrorKind::MacroUndefined);
    assert_eq!(printed("def N 1 redef N 2 redef N 3 #N"), "null\nnull\nnull\n3");
    assert_eq!(printed("def A [1, x] def B #A [#A, #B]"), "null\nnull\n(list (list 1 x) (list 1 x))");
}

#[test]
fn error_batching() {
    let source = "a := )\nb := 2\nc := (3\nd := 4";
    let (nodes, parser) = parse_all(source);
    assert_eq!(Expr::pretty_print(&nodes), "(assignI b 2)");
    assert!(parser.failed());
    let errors = parser.errors();
    assert_eq!(errors.len(), 2);
    assert_eq!((errors[0].line, errors[0].col), (1, 6));
    assert_eq!(errors[0].msg, "unexpected token");
    assert_eq!((errors[1].line, errors[1].col), (4, 1));
    assert_eq!(errors[1].msg, "expected ')'");
    let report = parser.report_errors("input", &source.to_string());
    assert_eq!(
        report,
        vec![
            "input:1:6 error: unexpected token".to_string(),
            "a := )".to_string(),
            "input:4:1 error: expected ')'".to_string(),
            "d := 4".to_string(),
        ]
    );
}

#[test]
fn resynchronizing_stops_at_the_next_form() {
    let (nodes, parser) = parse_all(") y := 1");
    assert_eq!(Expr::pretty_print(&nodes), "(assignI y 1)");
    assert_eq!(parser.errors().len(), 1);
    let (nodes, parser) = parse_all("x := )\ny := 2\nz := 3");
    assert_eq!(Expr::pretty_print(&nodes), "(assignI y 2)\n(assignI z 3)");
    assert_eq!(parser.errors().len(), 1);
    let (nodes, parser) = parse_all(") func f() 1");
    assert_eq!(Expr::pretty_print(&nodes), "(func f () 1)");
    assert_eq!(parser.errors().len(), 1);
    let (nodes, parser) = parse_all(") 1 , [ func f() 1");
    assert_eq!(Expr::pretty_print(&nodes), "(func f () 1)");
    assert_eq!(parser.errors().len(), 1);
    let (nodes, parser) = parse_all(") ) 1 match a {} ] try b c ) unsafe d ) def E 1 ) redef E 2 #E");
    assert_eq!(
        Expr::pretty_print(&nodes),
        "(match a)\n(match (error? b) true -> c false -> null)\n(unsafe d)\nnull\nnull\n2"
    );
    assert_eq!(parser.errors().len(), 5);
    let (nodes, parser) = parse_all("x x ) 1 2");
    assert_eq!(Expr::pretty_print(&nodes), "x\nx");
    assert_eq!(parser.errors().len(), 1);
    assert!(parser.is_end());
    let mut parser = Parser::new(lex(") y := 1"));
    parser.synchronize();
    assert_eq!(parser.current().lexeme, "y");
    parser.synchronize();
    assert!(parser.is_end());
    parser.synchronize();
    assert!(parser.is_end());
    let mut parser = Parser::new(lex("y z"));
    assert!(parser.at_restart());
    parser.synchronize();
    assert_eq!(parser.current().lexeme, "z");
}

#[test]
fn streaming_order() {
    let mut parser = Parser::new(lex("a b := 1 ) c"));
    let nodes = parser.parse();
    let texts: Vec<String> = nodes.iter().map(|n| n.print()).collect();
    assert_eq!(
        texts,
        vec!["a".to_string(), "(assignI b 1)".to_string(), "c".to_string(), "".to_string()]
    );
    assert_eq!(parser.errors().len(), 1);
    assert_eq!(nodes.last(), Some(&Expr::End));
    assert_eq!(nodes.iter().filter(|n| **n == Expr::End).count(), 1);
    let mut empty = Parser::new(lex(""));
    assert_eq!(empty.parse(), vec![Expr::End]);
    assert!(!empty.failed());
}

#[test]
fn forms_one_by_one() {
    let mut parser = Parser::new(lex("a ) b c"));
    assert_eq!(parser.next_form().map(|e| e.print()), Some("a".to_string()));
    assert!(!parser.is_end());
    assert_eq!(parser.next_form(), None);
    assert_eq!(parser.errors().len(), 1);
    assert_eq!(parser.next_form().map(|e| e.print()), Some("b".to_string()));
    assert_eq!(parser.next_form().map(|e| e.print()), Some("c".to_string()));
    assert!(parser.is_end());
    assert_eq!(parser.next_form(), None);
    assert_eq!(parser.errors().len(), 2);
    assert!(parser.is_end());
}

#[test]
fn printing_ignores_token_positions() {
    let spread = printed("x   :=\n\n   f( 1,\n 2 )");
    let tight = printed("x:=f(1,2)");
    assert_eq!(spread, "(assignI x (f 1 2))");
    assert_eq!(spread, tight);
    let (nodes, _) = parse_all("match a { b -> [c, {d: e}] }");
    assert_eq!(nodes[0].print(), nodes[0].print());
    assert_eq!(nodes[0].clone().print(), nodes[0].print());
    assert_eq!(nodes[0].clone(), nodes[0]);
}

#[test]
fn compound_assignment_and_increment() {
    assert_eq!(printed("x += 2"), "(assign x (Plus x 2))");
    assert_eq!(printed("x -= 2"), "(assign x (Minus x 2))");
    assert_eq!(printed("x *= 2"), "(assign x (Mul x 2))");
    assert_eq!(printed("x /= 2"), "(assign x (Div x 2))");
    assert_eq!(printed("x %= 2"), "(assign x (Mod x 2))");
    assert_eq!(printed("x += 2 * y"), "(assign x (Plus x (Mul 2 y)))");
    assert_eq!(printed("x += 2"), printed("x = x + 2"));
    assert_eq!(printed("x++"), "(assign x (Plus x 1))");
    assert_eq!(printed("x--"), "(assign x (Minus x 1))");
    assert_eq!(error_of("1 += 2"), ErrorKind::ExpectedVariable);
    assert_eq!(error_of("f()++"), ErrorKind::ExpectedVariable);
    assert_eq!(error_of("a.b++"), ErrorKind::ExpectedVariable);
    assert_eq!(error_of("a.b += 1"), ErrorKind::ExpectedVariable);
    let (nodes, _) = parse_all("x\n  *= 2");
    match &nodes[0] {
        Expr::Assign { init, public, mutable, right, .. } => {
            assert_eq!((*init, *public, *mutable), (false, false, false));
            match &**right {
                Expr::Binary { op, .. } => {
                    assert_eq!(op.kind, TokenType::Mul);
                    assert_eq!(op.lexeme, "*=");
                    assert_eq!((op.line, op.col), (2, 3));
                }
                other => panic!("not a binary operation: {:?}", other),
            }
        }
        other => panic!("not an assignment: {:?}", other),
    }
    let (nodes, _) = parse_all("x\n  ++");
    match &nodes[0] {
        Expr::Assign { right, .. } => match &**right {
            Expr::Binary { right, op, .. } => {
                assert_eq!(op.kind, TokenType::Plus);
                assert_eq!((op.line, op.col), (2, 3));
                match &**right {
                    Expr::IntegerLiteral { token, value } => {
                        assert_eq!(*value, 1);
                        assert_eq!(token, op);
                    }
                    other => panic!("not an integer: {:?}", other),
                }
            }
            other => panic!("not a binary operation: {:?}", other),
        },
        other => panic!("not an assignment: {:?}", other),
    }
}

#[test]
fn assignment_shapes() {
    assert_eq!(error_of("a = b = 1"), ErrorKind::AssignmentAsValue);
    assert_eq!(error_of("1 = 2"), ErrorKind::InvalidAssignmentTarget);
    assert_eq!(error_of("f() := 2"), ErrorKind::InvalidAssignmentTarget);
    assert_eq!(error_of("x = y += 1"), ErrorKind::AssignmentAsValue);
    assert_eq!(error_of("x := y++"), ErrorKind::AssignmentAsValue);
    assert_eq!(printed("x += y = 1"), "(assign x (Plus x (assign y 1)))");
}

#[test]
fn member_assignment() {
    assert_eq!(printed("a.b = 1"), "(set a.b 1)");
    assert_eq!(printed("a.b := f(2)"), "(set a.b (f 2))");
    assert_eq!(printed("a.b = c.d"), "(set a.b c.d)");
    assert_eq!(printed("(a.b).c = 1"), "(set (a.b).c 1)");
    assert_eq!(printed("f().g = [1]"), "(set (f).g (list 1))");
    let (nodes, _) = parse_all("a.b = 1");
    match &nodes[0] {
        Expr::SetMember { instance, member, token, value } => {
            assert_eq!(instance.print(), "a");
            assert_eq!(member.print(), "b");
            assert_eq!((token.kind, token.lexeme.as_str()), (TokenType::Id, "b"));
            assert_eq!((token.line, token.col), (1, 3));
            assert_eq!(value.print(), "1");
        }
        other => panic!("not a member assignment: {:?}", other),
    }
    assert_eq!(error_of("a.b = c = 1"), ErrorKind::AssignmentAsValue);
    assert_eq!(printed("a.0 = 1"), "(set a.0 1)");
    assert_eq!(printed("a.b.c = 1"), "(set a.b.c 1)");
    assert_eq!(printed("a.f() = 1"), "(set a.(f) 1)");
    assert_eq!(printed("a.\"k\" $= [b.c]"), "(set a.\"k\" (list b.c))");
    assert_eq!(printed("a.(b) |= 1"), "(set a.(b) 1)");
    let (nodes, _) = parse_all("xs\n .0 = y");
    match &nodes[0] {
        Expr::SetMember { instance, member, token, value } => {
            assert_eq!(instance.print(), "xs");
            assert_eq!(member.print(), "0");
            assert_eq!(token.kind, TokenType::Dot);
            assert_eq!((token.line, token.col), (2, 2));
            assert_eq!(value.print(), "y");
        }
        other => panic!("not a member assignment: {:?}", other),
    }
    assert_eq!(error_of("f() = 1"), ErrorKind::InvalidAssignmentTarget);
    assert_eq!(error_of("(a.b) = 1"), ErrorKind::InvalidAssignmentTarget);
    assert_eq!(error_of("-a.b = 1"), ErrorKind::InvalidAssignmentTarget);
    assert_eq!(printed("a.b"), "a.b");
    assert_eq!(printed("a.b.c"), "a.b.c");
    assert_eq!(printed("a.b(c)"), "a.(b c)");
    assert_eq!(printed("a.b + 1"), "a.(Plus b 1)");
    assert_eq!(printed("x = a.b"), "(assign x a.b)");
    assert_eq!(printed("[a.b, _] = c"), "(assign (list a.b :_:) c)");
}

#[test]
fn pipes() {
    assert_eq!(printed("a |> f(b)"), "(f a b)");
    assert_eq!(printed("a |> f()"), "(f a)");
    assert_eq!(printed("a |> f() |> g(1)"), "(g (f a) 1)");
    assert_eq!(printed("a |> f()()"), "((f a))");
    assert_eq!(printed("a |> f()(b)"), "((f a) b)");
    assert_eq!(printed("a |> f() ? g() : h()"), "(match (f a) true -> (g) :_: -> (h))");
    assert_eq!(printed("f(a) <| b"), "(f a b)");
    assert_eq!(printed("f() <~ 1"), "(f (lambda () 1))");
    assert_eq!(printed("f(a) <| b <~ (x, _) x"), "(f a b (lambda (x Underscore) x))");
    assert_eq!(printed("f(...a, b, ...c)"), "(f ...a b ...c)");
    assert_eq!(error_of("f(a, )"), ErrorKind::UnexpectedToken);
}

#[test]
fn groups_lists_objects_blocks() {
    assert_eq!(printed("(1)"), "(1)");
    assert_eq!(printed("((a + b)) * c"), "(Mul (((Plus a b))) c)");
    assert_eq!(printed("[]"), "(list)");
    assert_eq!(printed("[1, 2, ]"), "(list 1 2)");
    assert_eq!(printed("{}"), "(object)");
    assert_eq!(printed("{a: 1, b: 2, }"), "(object a:1 b:2)");
    assert_eq!(printed("{ a b c }"), "(block a b c)");
    assert_eq!(printed("{ a }"), "(block a)");
    assert_eq!(printed("a.b.c"), "a.b.c");
    assert_eq!(printed("1.5"), "1.5");
    assert_eq!(printed(r#""s""#), r#""s""#);
    assert_eq!(printed("true false null"), "true\nfalse\nnull");
    assert_eq!(printed("match x {}"), "(match x)");
    assert_eq!(printed("public func f(a) a"), "(func [public] f (a) a)");
    assert_eq!(printed("func (a) a"), "(lambda (a) a)");
    assert_eq!(printed("func f(,) 1"), "(func f () 1)");
}

#[test]
fn shorthand_lambda_takes_no_parameters() {
    assert_eq!(printed("-> x"), "(lambda () x)");
    assert_eq!(printed("-> (a) b"), "(lambda () (a))\nb");
    assert_eq!(error_of("-> )"), ErrorKind::UnexpectedToken);
}

#[test]
fn each_kind_of_error() {
    assert_eq!(error_of(")"), ErrorKind::UnexpectedToken);
    assert_eq!(error_of(""), ErrorKind::UnexpectedToken);
    assert_eq!(error_of("(1 2"), ErrorKind::ExpectedRParen);
    assert_eq!(error_of("f(1 2"), ErrorKind::ExpectedRParen);
    assert_eq!(error_of("[1 2"), ErrorKind::ExpectedRBracket);
    assert_eq!(error_of("{ a"), ErrorKind::UnexpectedEndInBraces);
    assert_eq!(error_of("{ a b"), ErrorKind::ExpectedRBrace);
    assert_eq!(error_of("{a: 1 b}"), ErrorKind::ExpectedRBrace);
    assert_eq!(error_of("{1: 2}"), ErrorKind::ExpectedIdentifier);
    assert_eq!(error_of("{a: 1, 2: 3}"), ErrorKind::ExpectedIdentifier);
    assert_eq!(error_of("{a: 1, b 2}"), ErrorKind::ExpectedColon);
    assert_eq!(error_of("def 1 2"), ErrorKind::ExpectedIdentifier);
    assert_eq!(error_of("redef 1 2"), ErrorKind::ExpectedIdentifier);
    assert_eq!(error_of("# 1"), ErrorKind::ExpectedIdentifier);
    assert_eq!(error_of("@ f"), ErrorKind::ExpectedLBracket);
    assert_eq!(error_of("@[f g] func h() 1"), ErrorKind::ExpectedRBracket);
    assert_eq!(error_of("@[f(1] func h() 1"), ErrorKind::ExpectedRParen);
    assert_eq!(error_of("@[f] 1"), ErrorKind::ExpectedFunc);
    assert_eq!(error_of("public 1"), ErrorKind::ExpectedFunc);
    assert_eq!(error_of("func f 1"), ErrorKind::ExpectedLParen);
    assert_eq!(error_of("func f(1) 2"), ErrorKind::ExpectedRParen);
    assert_eq!(error_of("match x y"), ErrorKind::ExpectedLBrace);
    assert_eq!(error_of("match x { a b }"), ErrorKind::ExpectedArrow);
    assert_eq!(error_of("match x { a -> b c }"), ErrorKind::ExpectedRBrace);
    assert_eq!(error_of("99999999999999999999"), ErrorKind::InvalidNumber);
    assert_eq!(printed("9223372036854775807"), "9223372036854775807");
    assert_eq!(error_of("9223372036854775808"), ErrorKind::InvalidNumber);
    assert_eq!(printed("-9223372036854775807"), "(Minus 9223372036854775807)");
}

#[test]
fn numbers_that_are_none() {
    let tokens = vec![
        Token::new(TokenType::Float, "1.2.3".to_string(), 1, 1),
        Token::new(TokenType::EOF, String::new(), 1, 6),
    ];
    let mut parser = Parser::new(tokens);
    assert_eq!(parser.expression(), Err(ErrorKind::InvalidNumber));
    let tokens = vec![
        Token::new(TokenType::Int, "12a".to_string(), 1, 1),
        Token::new(TokenType::EOF, String::new(), 1, 4),
    ];
    let mut parser = Parser::new(tokens);
    assert_eq!(parser.next_form(), None);
    assert_eq!((parser.errors()[0].line, parser.errors()[0].col), (1, 4));
    assert_eq!(parser.errors()[0].msg, "invalid number");
    let tokens = vec![
        Token::new(TokenType::Int, "-42".to_string(), 1, 1),
        Token::new(TokenType::Float, "2.50e3".to_string(), 1, 5),
        Token::new(TokenType::EOF, String::new(), 1, 11),
    ];
    let mut parser = Parser::new(tokens);
    let nodes = parser.parse();
    assert_eq!(nodes[0].print(), "-42");
    assert_eq!(nodes[1].print(), "2.50e3");
}

#[test]
fn a_stream_without_its_end() {
    let mut tokens = lex("a := 1");
    tokens.pop();
    let mut parser = Parser::new(tokens);
    let nodes = parser.parse();
    assert_eq!(nodes.len(), 2);
    assert_eq!(nodes[0].print(), "(assignI a 1)");
    assert!(!parser.failed());
    let mut parser = Parser::new(Vec::new());
    assert!(parser.is_end());
    assert_eq!(parser.current(), Token::new(TokenType::EOF, String::new(), 1, 1));
    assert_eq!(parser.parse(), vec![Expr::End]);
    let mut parser = Parser::new(vec![Token::new(TokenType::LParen, "(".to_string(), 7, 9)]);
    assert_eq!(parser.next_form(), None);
    assert_eq!((parser.errors()[0].line, parser.errors()[0].col), (7, 9));
}

#[test]
fn the_cursor() {
    let mut parser = Parser::new(lex("a + b"));
    assert_eq!(parser.previous().lexeme, "a");
    assert!(parser.check_current(TokenType::Id));
    assert!(!parser.does_match(&[TokenType::Plus, TokenType::Minus]));
    assert_eq!(parser.current().lexeme, "a");
    assert!(parser.does_match(&[TokenType::Plus, TokenType::Id]));
    assert_eq!(parser.previous().lexeme, "a");
    assert_eq!(parser.kind(), TokenType::Plus);
    parser.advance();
    parser.advance();
    assert!(parser.is_end());
    assert_eq!(parser.previous().lexeme, "b");
    parser.advance();
    assert!(parser.is_end());
    assert_eq!(parser.previous().lexeme, "b");
    assert!(parser.does_match(&[TokenType::EOF]));
    assert!(parser.is_end());
}

#[test]
fn report_of_an_error_past_the_source() {
    let mut parser = Parser::new(vec![
        Token::new(TokenType::RParen, ")".to_string(), 3, 1),
        Token::new(TokenType::EOF, String::new(), 0, 0),
    ]);
    parser.parse();
    let report = parser.report_errors("f.x", &"one\ntwo".to_string());
    assert_eq!(report, vec!["f.x:3:1 error: unexpected token".to_string(), String::new()]);
    let mut parser = Parser::new(vec![Token::new(TokenType::EOF, String::new(), 0, 0)]);
    assert_eq!(parser.expression(), Err(ErrorKind::UnexpectedToken));
    parser.add_error(ErrorKind::UnexpectedToken);
    let report = parser.report_errors("f.x", &"one\ntwo".to_string());
    assert_eq!(report, vec!["f.x:0:0 error: unexpected token".to_string(), String::new()]);
}

#[test]
fn forms_cut_short() {
    assert_eq!(error_of("@["), ErrorKind::ExpectedIdentifier);
    assert_eq!(error_of("@[a,"), ErrorKind::ExpectedIdentifier);
    assert_eq!(error_of("@[a"), ErrorKind::ExpectedRBracket);
    assert_eq!(error_of("@[a("), ErrorKind::UnexpectedToken);
    assert_eq!(error_of("match x {"), ErrorKind::UnexpectedToken);
    assert_eq!(error_of("match x { a ->"), ErrorKind::UnexpectedToken);
    assert_eq!(error_of("f("), ErrorKind::UnexpectedToken);
    assert_eq!(error_of("f(a"), ErrorKind::ExpectedRParen);
    assert_eq!(error_of("f() <|"), ErrorKind::UnexpectedToken);
    assert_eq!(error_of("f() <~ ("), ErrorKind::ExpectedRParen);
    assert_eq!(error_of("[1,"), ErrorKind::ExpectedRBracket);
    assert_eq!(error_of("["), ErrorKind::ExpectedRBracket);
    assert_eq!(error_of("{"), ErrorKind::UnexpectedToken);
    assert_eq!(error_of("{a:"), ErrorKind::UnexpectedToken);
    assert_eq!(error_of("{a: 1,"), ErrorKind::ExpectedRBrace);
    assert_eq!(error_of("try a"), ErrorKind::UnexpectedToken);
    assert_eq!(error_of("try a b else"), ErrorKind::UnexpectedToken);
    assert_eq!(error_of("def x"), ErrorKind::UnexpectedToken);
    assert_eq!(error_of("x."), ErrorKind::UnexpectedToken);
    assert_eq!(error_of("a ? b :"), ErrorKind::UnexpectedToken);
    assert_eq!(error_of("func"), ErrorKind::ExpectedLParen);
    assert_eq!(error_of("func f("), ErrorKind::ExpectedRParen);
    assert_eq!(error_of("func f(a+ b) 1"), ErrorKind::ExpectedRParen);
    assert_eq!(error_of("func f()"), ErrorKind::UnexpectedToken);
    assert_eq!(error_of("->"), ErrorKind::UnexpectedToken);
    assert_eq!(error_of("-"), ErrorKind::UnexpectedToken);
    assert_eq!(error_of("1 +"), ErrorKind::UnexpectedToken);
    assert_eq!(error_of("x :="), ErrorKind::UnexpectedToken);
    assert_eq!(error_of("x +="), ErrorKind::UnexpectedToken);
    assert_eq!(error_of("("), ErrorKind::UnexpectedToken);
    assert_eq!(error_of("unsafe"), ErrorKind::UnexpectedToken);
    assert_eq!(error_of("$"), ErrorKind::UnexpectedToken);
    assert_eq!(error_of("a |>"), ErrorKind::UnexpectedToken);
}

#[test]
fn where_an_error_is_placed() {
    let (_, parser) = parse_all("x := (1 +\n  2 3)");
    assert_eq!(parser.errors().len(), 1);
    assert_eq!((parser.errors()[0].line, parser.errors()[0].col), (2, 5));
    assert_eq!(parser.errors()[0].msg, "expected ')'");
    let (_, parser) = parse_all("f(");
    assert_eq!((parser.errors()[0].line, parser.errors()[0].col), (1, 3));
    let (nodes, parser) = parse_all("[def A 1, )] skip #A");
    assert_eq!(parser.errors().len(), 1);
    assert_eq!(Expr::pretty_print(&nodes), "skip\n1");
}

#[test]
fn decorators_are_identifiers() {
    assert_eq!(error_of("@[1] func f() 2"), ErrorKind::ExpectedIdentifier);
    assert_eq!(error_of("@[a, \"b\"] func f() 2"), ErrorKind::ExpectedIdentifier);
    assert_eq!(error_of("@[a, func] func f() 2"), ErrorKind::ExpectedIdentifier);
    assert_eq!(error_of("@[(a)] func f() 2"), ErrorKind::ExpectedIdentifier);
    assert_eq!(printed("@[] func f() 2"), "(func f () 2)");
    assert_eq!(printed("@[a,] func f() 2"), "(assignI f (a (lambda () 2)))");
    assert_eq!(printed("@[a, b(1), c()] func f() 2"), "(assignI f (c (b (a (lambda () 2)) 1)))");
    let (nodes, _) = parse_all("@[a] func f() {\n}");
    match &nodes[0] {
        Expr::Assign { right, .. } => match &**right {
            Expr::Call { token, .. } => {
                assert_eq!(token.kind, TokenType::RBrace);
                assert_eq!((token.line, token.col), (2, 1));
            }
            other => panic!("not a call: {:?}", other),
        },
        other => panic!("not an assignment: {:?}", other),
    }
}

/// Feeds `tokens` one by one, asking for settled forms after each, and
/// hands out the nodes in the order in which they were settled, with the
/// parser.
fn feed_one_by_one(tokens: Vec<Token>, close: bool) -> (Vec<Expr>, Parser) {
    let mut parser = Parser::open();
    let mut nodes = Vec::new();
    let mut done = false;
    for token in tokens {
        parser.feed(token);
        loop {
            match parser.next_settled() {
                Settled::Node(node) => nodes.push(node),
                Settled::Failed => {}
                Settled::Pending => break,
                Settled::Done => {
                    done = true;
                    break;
                }
            }
        }
    }
    if close {
        parser.close();
    }
    while !done {
        match parser.next_settled() {
            Settled::Node(node) => nodes.push(node),
            Settled::Failed => {}
            Settled::Pending => panic!("a complete stream leaves nothing pending"),
            Settled::Done => done = true,
        }
    }
    (nodes, parser)
}

#[test]
fn forms_settle_while_tokens_arrive() {
    let sources = [
        "a b := 1 ) c",
        "x := (1 +\n  2 3)",
        "def N 1 #N redef N [#N, 2] #N def N 3",
        "a := )\nb := 2\nc := (3\nd := 4",
        "@[d(1), e] public func f(a, b+) { a.b = 1 x += 2 }",
        "std.range(1, 101) |> std.each() <| func(n) { std.println(fizzbuzz(n)) }",
        "match x { [0, _] -> \"a\", _ -> try y {} else {} }",
        ") ) ) (",
        "",
        "func f(a, b+, c) {} g",
    ];
    for source in sources {
        let (whole, parser) = parse_all(source);
        let (fed, feeder) = feed_one_by_one(lex(source), false);
        assert_eq!(fed, whole, "{}", source);
        assert_eq!(feeder.errors(), parser.errors(), "{}", source);
        assert!(feeder.is_finished());
        let mut cut = lex(source);
        cut.pop();
        let (fed, feeder) = feed_one_by_one(cut, true);
        assert_eq!(Expr::pretty_print(&fed), Expr::pretty_print(&whole), "{}", source);
        assert_eq!(feeder.errors().len(), parser.errors().len(), "{}", source);
    }
}

#[test]
fn a_form_waits_for_the_token_after_it() {
    let mut tokens = lex("a b");
    let end = tokens.pop().unwrap();
    let b = tokens.pop().unwrap();
    let a = tokens.pop().unwrap();
    let mut parser = Parser::open();
    assert!(!parser.is_finished());
    assert!(parser.is_end());
    assert_eq!(parser.next_settled(), Settled::Pending);
    parser.feed(a);
    assert!(!parser.is_end());
    assert_eq!(parser.next_settled(), Settled::Pending);
    assert_eq!(parser.current().lexeme, "a");
    parser.feed(b);
    assert_eq!(parser.next_settled().into_node().map(|e| e.print()), Some("a".to_string()));
    assert_eq!(parser.next_settled(), Settled::Pending);
    assert_eq!(parser.current().lexeme, "b");
    parser.feed(end.clone());
    assert!(parser.is_finished());
    assert_eq!(parser.next_settled().into_node().map(|e| e.print()), Some("b".to_string()));
    assert_eq!(parser.next_settled(), Settled::Done);
    assert_eq!(parser.next_settled(), Settled::Done);
    parser.feed(Token::new(TokenType::Id, "late".to_string(), 9, 9));
    assert_eq!(parser.next_settled(), Settled::Done);
    assert!(!parser.failed());
}

#[test]
fn an_unsettled_form_leaves_no_trace() {
    let mut tokens = lex("def A 1 ) x");
    tokens.reverse();
    let mut parser = Parser::open();
    let name = "A".to_string();
    for _ in 0..3 {
        parser.feed(tokens.pop().unwrap());
        assert_eq!(parser.next_settled(), Settled::Pending);
        assert!(!parser.macro_defined(&name));
        assert_eq!(parser.current().lexeme, "def");
    }
    parser.feed(tokens.pop().unwrap());
    assert_eq!(parser.next_settled().into_node().map(|e| e.print()), Some("null".to_string()));
    assert!(parser.macro_defined(&name));
    assert_eq!(parser.next_settled(), Settled::Pending);
    assert!(!parser.failed());
    assert_eq!(parser.current().lexeme, ")");
    parser.feed(tokens.pop().unwrap());
    assert_eq!(parser.next_settled(), Settled::Failed);
    assert_eq!(parser.errors().len(), 1);
    assert_eq!(parser.current().lexeme, "x");
    assert_eq!(parser.next_settled(), Settled::Pending);
    parser.close();
    assert_eq!(parser.next_settled().into_node().map(|e| e.print()), Some("x".to_string()));
    assert_eq!(parser.next_settled(), Settled::Done);
    assert_eq!(parser.errors().len(), 1);
}

#[test]
fn rest_parameter_is_no_plain_parameter() {
    let (nodes, parser) = parse_all("func f(a, b, a+) a\ng() <~ (x, y+) x");
    assert!(!parser.failed());
    assert_eq!(nodes.len(), 2);
    let callback = match &nodes[1] {
        Expr::Call { args, .. } => match &args[0] {
            CallArg::Positional(made) => &**made,
            CallArg::Unpacking(_) => panic!("the callback is a plain argument"),
        },
        _ => panic!("the second form is a call"),
    };
    let mut seen = 0;
    for func in [&nodes[0], callback] {
        if let Expr::Func { params, rest: Some(rest), .. } = func {
            assert!(!params.contains(rest));
            assert!(params.iter().all(|p| (p.line, p.col) < (rest.line, rest.col)));
            seen += 1;
        }
    }
    assert_eq!(seen, 2);
}
