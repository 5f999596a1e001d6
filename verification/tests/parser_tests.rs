use rolang::error::{Error, ErrorKind};
use rolang::lexer::tokenize;
use rolang::nodes::{
    AddExpr, AndExpr, AssignExpr, Atom, BitAndExpr, BitOrExpr, BitXorExpr, Block, BlockExpr,
    CallExpr, CallPart, EqExpr, ExpExpr, Expression, Member, MemberBlock, MemberExpr, MemberPart,
    MemberType, MulExpr, OrExpr, RelExpr, Rep, ShiftExpr, Statement, Statements, UnaryExpr,
};
use rolang::parser::Parser;
use rolang::tokens::{Token, TokenType};

fn parse(code: &str) -> Result<Statements<'static>, Error<'static>> {
    let tokens = tokenize("test", code)?;
    Parser::new(tokens).parse()
}

fn items<T>(rep: &Rep<T>) -> &[T] {
    rep
}

// The tree in prefix form; a level without an operator is shown as its operand.

fn symbol(kind: TokenType) -> &'static str {
    match kind {
        TokenType::DotDot => "..",
        TokenType::DotDotEq => "..=",
        TokenType::EqEq => "==",
        TokenType::NotEq => "!=",
        TokenType::Less => "<",
        TokenType::LessEq => "<=",
        TokenType::Greater => ">",
        TokenType::GreaterEq => ">=",
        TokenType::Shl => "<<",
        TokenType::Shr => ">>",
        TokenType::Plus => "+",
        TokenType::Minus => "-",
        TokenType::Star => "*",
        TokenType::Slash => "/",
        TokenType::Percent => "%",
        TokenType::Bang => "!",
        TokenType::Assign => "=",
        TokenType::PlusAssign => "+=",
        TokenType::MinusAssign => "-=",
        TokenType::StarAssign => "*=",
        TokenType::SlashAssign => "/=",
        TokenType::PercentAssign => "%=",
        other => panic!("not an operator: {:?}", other),
    }
}

fn fold(base: String, rest: Vec<(&str, String)>) -> String {
    rest.into_iter().fold(base, |left, (op, right)| format!("({} {} {})", op, left, right))
}

fn show(e: &Expression) -> String {
    let base = show_or(&e.base);
    match &e.range {
        Some((op, right)) => format!("({} {} {})", symbol(*op), base, show_or(right)),
        None => base,
    }
}

fn show_or(e: &OrExpr) -> String {
    fold(show_and(&e.base), items(&e.following).iter().map(|x| ("||", show_and(x))).collect())
}

fn show_and(e: &AndExpr) -> String {
    fold(show_bit_or(&e.base), items(&e.following).iter().map(|x| ("&&", show_bit_or(x))).collect())
}

fn show_bit_or(e: &BitOrExpr) -> String {
    fold(show_bit_xor(&e.base), items(&e.following).iter().map(|x| ("|", show_bit_xor(x))).collect())
}

fn show_bit_xor(e: &BitXorExpr) -> String {
    fold(show_bit_and(&e.base), items(&e.following).iter().map(|x| ("^", show_bit_and(x))).collect())
}

fn show_bit_and(e: &BitAndExpr) -> String {
    fold(show_eq(&e.base), items(&e.following).iter().map(|x| ("&", show_eq(x))).collect())
}

fn show_eq(e: &EqExpr) -> String {
    match &e.right {
        Some((op, right)) => format!("({} {} {})", symbol(*op), show_rel(&e.left), show_rel(right)),
        None => show_rel(&e.left),
    }
}

fn show_rel(e: &RelExpr) -> String {
    match &e.right {
        Some((op, right)) => {
            format!("({} {} {})", symbol(*op), show_shift(&e.left), show_shift(right))
        }
        None => show_shift(&e.left),
    }
}

fn show_shift(e: &ShiftExpr) -> String {
    fold(
        show_add(&e.base),
        items(&e.following).iter().map(|(op, x)| (symbol(*op), show_add(x))).collect(),
    )
}

fn show_add(e: &AddExpr) -> String {
    fold(
        show_mul(&e.base),
        items(&e.following).iter().map(|(op, x)| (symbol(*op), show_mul(x))).collect(),
    )
}

fn show_mul(e: &MulExpr) -> String {
    fold(
        show_unary(&e.base),
        items(&e.following).iter().map(|(op, x)| (symbol(*op), show_unary(x))).collect(),
    )
}

fn show_unary(e: &UnaryExpr) -> String {
    match e {
        UnaryExpr::Unary { operator, expr, .. } => {
            format!("({} {})", symbol(*operator), show_unary(expr))
        }
        UnaryExpr::Done(power) => show_exp(power),
    }
}

fn show_exp(e: &ExpExpr) -> String {
    match &e.exponent {
        Some(exponent) => format!("(** {} {})", show_assign(&e.base), show_unary(exponent)),
        None => show_assign(&e.base),
    }
}

fn show_assign(e: &AssignExpr) -> String {
    match &e.right {
        Some((op, value)) => format!("({} {} {})", symbol(*op), show_call(&e.left), show(value)),
        None => show_call(&e.left),
    }
}

fn show_args(args: &Rep<Expression>) -> String {
    items(args).iter().map(show).collect::<Vec<String>>().join(" ")
}

fn show_call(e: &CallExpr) -> String {
    let mut text = show_member(&e.base);
    if let Some((args, parts)) = &e.following {
        text = format!("(call {} [{}])", text, show_args(args));
        for part in items(parts) {
            text = match part {
                CallPart::Member(MemberPart::Field(name)) => format!("(. {} {})", text, name),
                CallPart::Args(args) => format!("(call {} [{}])", text, show_args(args)),
            };
        }
    }
    text
}

fn show_member(e: &MemberExpr) -> String {
    let mut text = show_atom(&e.base);
    for MemberPart::Field(name) in items(&e.following) {
        text = format!("(. {} {})", text, name);
    }
    text
}

fn show_names(names: &Rep<String>) -> String {
    items(names).join(" ")
}

fn show_atom(e: &Atom) -> String {
    match e {
        Atom::Number(n) => {
            if n.scale() == 0 {
                format!("{}", n.mantissa())
            } else {
                format!("{}e-{}", n.mantissa(), n.scale())
            }
        }
        Atom::Bool(b) => format!("{}", b),
        Atom::String(s) => format!("{:?}", s),
        Atom::Null => "null".to_string(),
        Atom::Identifier { name, .. } => name.clone(),
        Atom::Expr(inner) => format!("(paren {})", show(inner)),
        Atom::IfExpr(e) => match &e.else_block {
            Some(other) => {
                format!("(if {} {} {})", show(&e.condition), show_block(&e.block), show_block(other))
            }
            None => format!("(if {} {})", show(&e.condition), show_block(&e.block)),
        },
        Atom::ForExpr(e) => {
            format!("(for {} {} {})", e.ident, show(&e.iter), show_block(&e.block))
        }
        Atom::WhileExpr(e) => format!("(while {} {})", show(&e.condition), show_block(&e.block)),
        Atom::LoopExpr(e) => format!("(loop {})", show_block(&e.block)),
        Atom::FunExpr(e) => format!("(fun [{}] {})", show_names(&e.args), show_block(&e.block)),
        Atom::ClassExpr(e) => format!("(class {})", show_members(&e.block)),
        Atom::TryExpr(e) => format!(
            "(try {} {} {})",
            show_block(&e.try_block),
            e.ident,
            show_block(&e.catch_block)
        ),
        Atom::BlockExpr(e) => show_braces(e),
    }
}

fn show_block(block: &Block) -> String {
    match block {
        Block::Single(statement) => show_statement(statement),
        Block::Multiple(braces) => show_braces(braces),
    }
}

fn show_braces(e: &BlockExpr) -> String {
    let mut parts: Vec<String> = items(&e.stmts).iter().map(show_statement).collect();
    if let Some(value) = &e.expr {
        parts.push(format!("=> {}", show(value)));
    }
    format!("{{{}}}", parts.join(" "))
}

fn show_member_item(member: &Member) -> String {
    let item = match &member.member_type {
        MemberType::Attribute(v) => format!("(var {} {})", v.ident, show(&v.expr)),
        MemberType::Method(f) => {
            format!("(fun {} [{}] {})", f.ident, show_names(&f.args), show_block(&f.block))
        }
    };
    if member.is_static {
        format!("(static {})", item)
    } else {
        item
    }
}

fn show_members(block: &MemberBlock) -> String {
    let parts: Vec<String> = items(&block.members).iter().map(show_member_item).collect();
    format!("{{{}}}", parts.join(" "))
}

fn show_statement(statement: &Statement) -> String {
    match statement {
        Statement::Var(v) => format!("(var {} {})", v.ident, show(&v.expr)),
        Statement::Function(f) => {
            format!("(fun {} [{}] {})", f.ident, show_names(&f.args), show_block(&f.block))
        }
        Statement::Class(c) => format!("(class {} {})", c.ident, show_members(&c.block)),
        Statement::Break(b) => match &b.expr {
            Some(value) => format!("(break {})", show(value)),
            None => "(break)".to_string(),
        },
        Statement::Continue(_) => "(continue)".to_string(),
        Statement::Return(r) => match &r.expr {
            Some(value) => format!("(return {})", show(value)),
            None => "(return)".to_string(),
        },
        Statement::Expr(e) => format!("{};", show(e)),
    }
}

fn program(code: &str) -> String {
    let statements = parse(code).unwrap();
    items(&statements).iter().map(show_statement).collect::<Vec<String>>().join(" ")
}

fn expression(code: &str) -> String {
    let text = program(&format!("{};", code));
    text.strip_suffix(';').unwrap().to_string()
}

fn syntax_error(code: &str) -> Error<'static> {
    let e = parse(code).unwrap_err();
    assert_eq!(e.kind, ErrorKind::SyntaxError);
    e
}

#[test]
fn multiplication_binds_tighter_than_addition() {
    assert_eq!(expression("1 + 2 * 3"), "(+ 1 (* 2 3))");
    assert_eq!(expression("1 * 2 + 3"), "(+ (* 1 2) 3)");
    assert_eq!(expression("(1 + 2) * 3"), "(* (paren (+ 1 2)) 3)");
}

#[test]
fn exponentiation_binds_to_the_right() {
    assert_eq!(expression("2 ** 3 ** 2"), "(** 2 (** 3 2))");
    assert_eq!(expression("2 ** 3 ** 2 ** 1"), "(** 2 (** 3 (** 2 1)))");
}

#[test]
fn comparisons_do_not_chain() {
    let e = syntax_error("a == b == c;");
    assert_eq!(e.message, "Expected ';', found '=='");
    assert_eq!((e.start.offset, e.end.offset), (7, 9));
    let e = syntax_error("a < b < c;");
    assert_eq!(e.message, "Expected ';', found '<'");
    assert_eq!((e.start.offset, e.end.offset), (6, 7));
    // one comparison of each level is fine, and so are parentheses
    assert_eq!(expression("a < b == c > d"), "(== (< a b) (> c d))");
    assert_eq!(expression("(a == b) == c"), "(== (paren (== a b)) c)");
    assert_eq!(expression("a != b"), "(!= a b)");
    assert_eq!(expression("a <= b"), "(<= a b)");
    assert_eq!(expression("a >= b"), "(>= a b)");
}

#[test]
fn subtraction_binds_to_the_left() {
    assert_eq!(expression("1 - 2 - 3"), "(- (- 1 2) 3)");
    assert_eq!(expression("1 - 2 + 3 - 4"), "(- (+ (- 1 2) 3) 4)");
    assert_eq!(expression("8 / 4 % 3 * 2"), "(* (% (/ 8 4) 3) 2)");
    assert_eq!(expression("1 << 2 >> 3"), "(>> (<< 1 2) 3)");
}

#[test]
fn a_block_has_an_optional_value() {
    let statements = parse("{ var x = 1; x + 1 };").unwrap();
    match &items(&statements)[0] {
        Statement::Expr(e) => match atom_of(e) {
            Atom::BlockExpr(block) => {
                assert_eq!(items(&block.stmts).len(), 1);
                assert!(block.expr.is_some());
            }
            other => panic!("unexpected atom: {:?}", other),
        },
        other => panic!("unexpected statement: {:?}", other),
    }
    assert_eq!(program("{ var x = 1; x + 1 };"), "{(var x 1) => (+ x 1)};");

    let statements = parse("{ var x = 1; };").unwrap();
    match &items(&statements)[0] {
        Statement::Expr(e) => match atom_of(e) {
            Atom::BlockExpr(block) => {
                assert_eq!(items(&block.stmts).len(), 1);
                assert!(block.expr.is_none());
            }
            other => panic!("unexpected atom: {:?}", other),
        },
        other => panic!("unexpected statement: {:?}", other),
    }
    assert_eq!(program("{ var x = 1; };"), "{(var x 1)};");
    assert_eq!(program("{};"), "{};");
    assert_eq!(program("{ 1; 2; 3 };"), "{1; 2; => 3};");
    assert_eq!(program("{ 1; 2; 3; };"), "{1; 2; 3;};");
}

fn atom_of<'a, 'f>(e: &'a Expression<'f>) -> &'a Atom<'f> {
    let add = &e.base.base.base.base.base.base.left.left.base;
    match &add.base.base {
        UnaryExpr::Done(power) => &power.base.left.base.base,
        other => panic!("not an atom: {:?}", other),
    }
}

#[test]
fn unary_minus_is_applied_to_the_power() {
    assert_eq!(expression("-2 ** 2"), "(- (** 2 2))");
    assert_eq!(expression("2 ** -2"), "(** 2 (- 2))");
    assert_eq!(expression("!-!x"), "(! (- (! x)))");
    assert_eq!(expression("+x"), "(+ x)");
    assert_eq!(expression("- - x"), "(- (- x))");
    assert_eq!(expression("a - -b"), "(- a (- b))");
}

#[test]
fn a_truncated_expression_fails_at_the_end_of_the_input() {
    let e = syntax_error("1 + ");
    assert_eq!(e.message, "Expected an expression, found the end of the input");
    assert_eq!((e.start.line, e.start.column, e.start.offset), (1, 5, 4));
    assert_eq!((e.end.line, e.end.column, e.end.offset), (1, 5, 4));

    let e = syntax_error("var x = (1 + 2");
    assert_eq!(e.message, "Expected ')', found the end of the input");
    assert_eq!(e.start.offset, 14);

    let e = syntax_error("x = 1");
    assert_eq!(e.message, "Expected ';', found the end of the input");
    assert_eq!(e.start.offset, 5);
}

#[test]
fn all_levels_in_order() {
    assert_eq!(
        expression("a || b && c | d ^ e & f == g < h << i + j * -k ** l"),
        "(|| a (&& b (| c (^ d (& e (== f (< g (<< h (+ i (* j (- (** k l))))))))))))"
    );
    assert_eq!(expression("a..b"), "(.. a b)");
    assert_eq!(expression("1..=n + 1"), "(..= 1 (+ n 1))");
    assert_eq!(expression("a || b || c"), "(|| (|| a b) c)");
    assert_eq!(expression("a && b || c && d"), "(|| (&& a b) (&& c d))");
    assert_eq!(expression("a | b | c ^ d & e"), "(| (| a b) (^ c (& d e)))");
}

#[test]
fn ranges_do_not_chain() {
    let e = syntax_error("a..b..c;");
    assert_eq!(e.message, "Expected ';', found '..'");
}

#[test]
fn an_assigned_value_is_any_expression() {
    assert_eq!(expression("a = 1 + 2"), "(= a (+ 1 2))");
    assert_eq!(expression("a = b = c"), "(= a (= b c))");
    assert_eq!(expression("1 + a = 2"), "(+ 1 (= a 2))");
    assert_eq!(expression("a.b.c += 1"), "(+= (. (. a b) c) 1)");
    assert_eq!(expression("f(1).x -= 2"), "(-= (. (call f [1]) x) 2)");
    assert_eq!(expression("x *= 2"), "(*= x 2)");
    assert_eq!(expression("x /= 2"), "(/= x 2)");
    assert_eq!(expression("x %= 2"), "(%= x 2)");
}

#[test]
fn what_cannot_be_assigned_to() {
    let e = syntax_error("f() = 1;");
    assert_eq!(e.message, "Expected something to assign to, found an identifier");
    assert_eq!((e.start.offset, e.end.offset), (0, 3));
    let e = syntax_error("a.b(c) = 1;");
    assert_eq!((e.start.offset, e.end.offset), (0, 6));
    let e = syntax_error("x = 1 = 2;");
    assert_eq!(e.message, "Expected something to assign to, found a number");
    assert_eq!((e.start.offset, e.end.offset), (4, 5));
    let e = syntax_error("(a) = 2;");
    assert_eq!(e.message, "Expected something to assign to, found '('");
    assert!(parse("a.b(c).d = 1;").is_ok());
    assert!(parse("\"s\".length = 1;").is_ok());
}

#[test]
fn calls_and_fields_chain() {
    assert_eq!(expression("a.b(c).d"), "(. (call (. a b) [c]) d)");
    assert_eq!(expression("f()"), "(call f [])");
    assert_eq!(expression("f(1, 2 + 3)(4).g(h(5))"), "(call (. (call (call f [1 (+ 2 3)]) [4]) g) [(call h [5])])");
    assert_eq!(expression("a.b.c"), "(. (. a b) c)");
    assert_eq!(expression("f(if a 1; else 2;)"), "(call f [(if a 1; 2;)])");
}

#[test]
fn malformed_argument_lists() {
    let e = syntax_error("f(1 2);");
    assert_eq!(e.message, "Expected ',' or ')', found a number");
    assert_eq!(e.start.offset, 4);
    let e = syntax_error("f(1,);");
    assert_eq!(e.message, "Expected an expression, found ')'");
    let e = syntax_error("f(,);");
    assert_eq!(e.message, "Expected an expression, found ','");
    let e = syntax_error("a.1;");
    assert_eq!(e.message, "Expected an identifier, found a number");
    let e = syntax_error("f(1).;");
    assert_eq!(e.message, "Expected an identifier, found ';'");
}

#[test]
fn literals() {
    assert_eq!(expression("12.50"), "1250e-2");
    assert_eq!(expression("\"a b\""), "\"a b\"");
    assert_eq!(expression("true"), "true");
    assert_eq!(expression("false"), "false");
    assert_eq!(expression("null"), "null");
    assert_eq!(expression("name"), "name");
}

#[test]
fn statements() {
    assert_eq!(program("var x = 1; x = x + 1;"), "(var x 1) (= x (+ x 1));");
    assert_eq!(program("fun add(a, b) { return a + b; }"), "(fun add [a b] {(return (+ a b))})");
    assert_eq!(program("fun one() return 1;"), "(fun one [] (return 1))");
    assert_eq!(
        program("while true { break; continue; break 1; return; };"),
        "(while true {(break) (continue) (break 1) (return)});"
    );
    assert_eq!(program(""), "");
    assert_eq!(program("// nothing here\n"), "");
}

#[test]
fn classes() {
    assert_eq!(
        program("class Point { var x = 0; static var count = 0; fun norm() { 1 } static fun make(a) a; }"),
        "(class Point {(var x 0) (static (var count 0)) (fun norm [] {=> 1}) (static (fun make [a] a;))})"
    );
    assert_eq!(program("class Empty {}"), "(class Empty {})");
    assert_eq!(expression("class { var x = 1; }"), "(class {(var x 1)})");
    let e = syntax_error("class A { x = 1; }");
    assert_eq!(e.message, "Expected a member or '}', found an identifier");
    let e = syntax_error("class A { static }");
    assert_eq!(e.message, "Expected a member or '}', found '}'");
    let e = syntax_error("class A { fun () {} }");
    assert_eq!(e.message, "Expected an identifier, found '('");
    let e = syntax_error("class A");
    assert_eq!(e.message, "Expected '{', found the end of the input");
}

#[test]
fn control_forms_are_atoms() {
    assert_eq!(expression("if a { 1 } else { 2 }"), "(if a {=> 1} {=> 2})");
    assert_eq!(expression("if a { 1 }"), "(if a {=> 1})");
    assert_eq!(expression("if a b; else c;"), "(if a b; c;)");
    // an `else` belongs to the nearest `if`
    assert_eq!(expression("if a if b c; else d;;"), "(if a (if b c; d;);)");
    assert_eq!(expression("for x in 1..3 { x; }"), "(for x (.. 1 3) {x;})");
    assert_eq!(expression("while x < 3 x = x + 1;"), "(while (< x 3) (= x (+ x 1));)");
    assert_eq!(expression("loop { break 1; }"), "(loop {(break 1)})");
    assert_eq!(expression("fun (a, b) { a + b }"), "(fun [a b] {=> (+ a b)})");
    assert_eq!(expression("fun () 1;"), "(fun [] 1;)");
    assert_eq!(expression("try { f() } catch e { g(e) }"), "(try {=> (call f [])} e {=> (call g [e])})");
    assert_eq!(expression("1 + if a { 2 } else { 3 } * 4"), "(+ 1 (* (if a {=> 2} {=> 3}) 4))");
    assert_eq!(expression("x = loop { break 1; }"), "(= x (loop {(break 1)}))");
}

#[test]
fn what_the_forms_expect() {
    assert_eq!(syntax_error("for 1 in x {};").message, "Expected an identifier, found a number");
    assert_eq!(syntax_error("for x of y {};").message, "Expected 'in', found an identifier");
    assert_eq!(syntax_error("try { } finally { };").message, "Expected 'catch', found an identifier");
    assert_eq!(syntax_error("try { } catch { };").message, "Expected an identifier, found '{'");
    assert_eq!(syntax_error("fun (a b) {};").message, "Expected ',' or ')', found an identifier");
    assert_eq!(syntax_error("fun (a,) {};").message, "Expected an identifier, found ')'");
    assert_eq!(syntax_error("fun {};").message, "Expected '(', found '{'");
    assert_eq!(syntax_error("var = 1;").message, "Expected an identifier, found '='");
    assert_eq!(syntax_error("var x 1;").message, "Expected '=', found a number");
    assert_eq!(syntax_error("continue 1;").message, "Expected ';', found a number");
    assert_eq!(syntax_error("{ 1 2 };").message, "Expected ';' or '}', found a number");
    assert_eq!(syntax_error("{ 1; ").message, "Expected '}', found the end of the input");
    assert_eq!(syntax_error(";").message, "Expected an expression, found ';'");
    assert_eq!(syntax_error("else;").message, "Expected an expression, found 'else'");
}

#[test]
fn the_first_error_is_the_one_reported() {
    let e = syntax_error("var x = ; var = ;");
    assert_eq!(e.message, "Expected an expression, found ';'");
    assert_eq!(e.start.offset, 8);
}

#[test]
fn a_lexical_error_comes_before_any_parsing() {
    let e = parse("var x = 1 $;").unwrap_err();
    assert_eq!(e.kind, ErrorKind::LexicalError);
}

#[test]
fn every_node_spans_its_tokens() {
    let code = "var total = f(1, 2).x + -3 ** 2;\nif a { b; }\n  else c;;";
    let statements = parse(code).unwrap();
    let list = items(&statements);
    assert_eq!(list.len(), 2);
    match &list[0] {
        Statement::Var(v) => {
            assert_eq!((v.start.offset, v.end.offset), (0, 32));
            assert_eq!((v.start.line, v.start.column), (1, 1));
            let e = &v.expr;
            assert_eq!((e.start.offset, e.end.offset), (12, 31));
            let add = &e.base.base.base.base.base.base.left.left.base;
            assert_eq!((add.start.offset, add.end.offset), (12, 31));
            let left = &add.base;
            assert_eq!((left.start.offset, left.end.offset), (12, 21));
            let (op, right) = &items(&add.following)[0];
            assert_eq!(*op, TokenType::Plus);
            assert_eq!((right.start.offset, right.end.offset), (24, 31));
            match &right.base {
                UnaryExpr::Unary { start, end, operator, expr } => {
                    assert_eq!(*operator, TokenType::Minus);
                    assert_eq!((start.offset, end.offset), (24, 31));
                    match &**expr {
                        UnaryExpr::Done(power) => {
                            assert_eq!((power.start.offset, power.end.offset), (25, 31));
                            assert_eq!((power.base.start.offset, power.base.end.offset), (25, 26));
                        }
                        other => panic!("unexpected: {:?}", other),
                    }
                }
                other => panic!("unexpected: {:?}", other),
            }
            match &left.base {
                UnaryExpr::Done(power) => {
                    let call = &power.base.left;
                    assert_eq!((call.start.offset, call.end.offset), (12, 21));
                    assert_eq!((call.base.start.offset, call.base.end.offset), (12, 13));
                    match &call.base.base {
                        Atom::Identifier { start, end, name } => {
                            assert_eq!(name, "f");
                            assert_eq!((start.offset, end.offset), (12, 13));
                        }
                        other => panic!("unexpected: {:?}", other),
                    }
                }
                other => panic!("unexpected: {:?}", other),
            }
        }
        other => panic!("unexpected statement: {:?}", other),
    }
    match &list[1] {
        Statement::Expr(e) => {
            assert_eq!((e.start.line, e.start.column, e.start.offset), (2, 1, 33));
            assert_eq!((e.end.line, e.end.column, e.end.offset), (3, 10, 54));
            match atom_of(e) {
                Atom::IfExpr(form) => {
                    assert_eq!((form.start.offset, form.end.offset), (33, 54));
                    assert_eq!((form.condition.start.offset, form.condition.end.offset), (36, 37));
                    match &form.block {
                        Block::Multiple(block) => {
                            assert_eq!((block.start.offset, block.end.offset), (38, 44));
                        }
                        other => panic!("unexpected: {:?}", other),
                    }
                    match &form.else_block {
                        Some(Block::Single(statement)) => match &**statement {
                            Statement::Expr(c) => {
                                assert_eq!((c.start.offset, c.end.offset), (52, 53));
                            }
                            other => panic!("unexpected: {:?}", other),
                        },
                        other => panic!("unexpected: {:?}", other),
                    }
                }
                other => panic!("unexpected atom: {:?}", other),
            }
        }
        other => panic!("unexpected statement: {:?}", other),
    }
}

#[test]
fn tokens_built_by_hand() {
    // a parser takes any tokens: without a token for the end of the input the
    // input ends behind the last token
    let tokens = tokenize("test", "1 + 2;").unwrap();
    let without_end: Vec<Token> = tokens[..tokens.len() - 1].to_vec();
    let statements = Parser::new(without_end).parse().unwrap();
    assert_eq!(items(&statements).len(), 1);

    let truncated: Vec<Token> = tokens[..2].to_vec();
    let e = Parser::new(truncated).parse().unwrap_err();
    assert_eq!(e.kind, ErrorKind::SyntaxError);
    assert_eq!(e.message, "Expected an expression, found the end of the input");
    // the error lies where the last token ends
    assert_eq!((e.start.offset, e.end.offset), (3, 3));

    let statements = Parser::new(Vec::new()).parse().unwrap();
    assert_eq!(items(&statements).len(), 0);

    // a number token whose lexeme is no literal
    let mut tokens = tokenize("test", "1;").unwrap();
    tokens[0].lexeme = "1.2.3".to_string();
    let e = Parser::new(tokens).parse().unwrap_err();
    assert_eq!(e.message, "Expected a number that can be held exactly, found a number");
}

#[test]
fn parsing_again_gives_the_same_tree() {
    let code = "var a = f(1, 2).x + -3 ** 2; class C { static fun m(p) { if p { 1 } else { 2 } } }";
    let first = program(code);
    let second = program(code);
    assert_eq!(first, second);
    // the layout of the text does not matter
    let spaced = "var   a=f( 1,2 ) . x+ - 3**2 ;\nclass C{static fun m ( p ){if p{1}else{2}}}";
    assert_eq!(program(spaced), first);
}

#[test]
fn repetitions() {
    let empty: Rep<u8> = Rep::from(None);
    assert_eq!(empty.len(), 0);
    assert_eq!(items(&empty), &[] as &[u8]);
    let some: Rep<u8> = Rep::from(Some(vec![1, 2, 3]));
    assert_eq!(some.len(), 3);
    assert_eq!(items(&some), &[1, 2, 3]);
    assert_eq!(*some.get(1), 2);
    let collected = Rep::collect(vec![7u8]);
    assert_eq!(items(&collected), &[7]);
    let nothing: Rep<u8> = Rep::collect(Vec::new());
    assert!(nothing.0.is_none());
}

#[test]
fn one_expression_spans_what_was_read() {
    let tokens = tokenize("test", "  a + b * (c - 1) ; rest").unwrap();
    let mut parser = Parser::new(tokens);
    let e = parser.parse_expression().unwrap();
    assert_eq!(show(&e), "(+ a (* b (paren (- c 1))))");
    assert_eq!((e.start.offset, e.end.offset), (2, 17));
    // the cursor stands at the `;`: what follows is still to be read
    let e = parser.parse_expression().unwrap_err();
    assert_eq!(e.message, "Expected an expression, found ';'");
    assert_eq!(e.start.offset, 18);
}

#[test]
fn a_repetition_can_be_walked() {
    let statements = parse("1; 2; 3;").unwrap();
    let mut count = 0;
    for statement in &statements {
        match statement {
            Statement::Expr(_) => count += 1,
            other => panic!("unexpected statement: {:?}", other),
        }
    }
    assert_eq!(count, 3);
}

fn small_number(e: &UnaryExpr) -> i128 {
    match e {
        UnaryExpr::Done(power) => match &power.base.left.base.base {
            Atom::Number(n) => n.mantissa(),
            other => panic!("not a number: {:?}", other),
        },
        other => panic!("not a number: {:?}", other),
    }
}

#[test]
fn walking_the_operands_keeps_their_order() {
    let statements = parse("1 - 2 - 3;").unwrap();
    let e = match &items(&statements)[0] {
        Statement::Expr(e) => e,
        other => panic!("unexpected statement: {:?}", other),
    };
    let add = &e.base.base.base.base.base.base.left.left.base;
    let mut seen: Vec<(TokenType, i128)> = Vec::new();
    let mut value = small_number(&add.base.base);
    for (operator, operand) in &add.following {
        let right = small_number(&operand.base);
        seen.push((*operator, right));
        value = match operator {
            TokenType::Minus => value - right,
            TokenType::Plus => value + right,
            other => panic!("unexpected operator: {:?}", other),
        };
    }
    assert_eq!(seen, vec![(TokenType::Minus, 2), (TokenType::Minus, 3)]);
    // folded from the left: (1 - 2) - 3
    assert_eq!(value, -4);

    let nothing: Rep<u8> = Rep::from(None);
    assert_eq!((&nothing).into_iter().count(), 0);
    let some: Rep<u8> = Rep::from(Some(vec![5, 6, 7]));
    let walked: Vec<u8> = (&some).into_iter().copied().collect();
    assert_eq!(walked, vec![5, 6, 7]);
}
