use minilang::context::Context;
use minilang::eval::{eval, Env};
use minilang::name_analysis::resolve;
use minilang::parser::parse;
use minilang::position::Position;
use minilang::tokenizer::Tokenizer;
use minilang::tree::{Tree, TreeType};
use minilang::utils::{Error, ErrorKind};
use minilang::value::Value;

fn parse_str(input: &str) -> Tree {
    let toks = Tokenizer::tokenize(input);
    parse(&toks)
}

fn resolve_str(input: &str) -> Result<Tree, Error> {
    let t = parse_str(input);
    assert!(!t.has_error());
    let mut ctx = Context::new();
    resolve(&t, &mut ctx)
}

// Round-trip: for an error-free tree, re-parsing its printed form
// yields a structurally equal tree; compared through the printer, which
// erases positions.
fn roundtrips(input: &str) {
    let t = parse_str(input);
    assert!(!t.has_error());
    let printed = t.print();
    let t2 = parse_str(&printed);
    assert!(!t2.has_error());
    assert_eq!(t2.print(), printed);
}

#[test]
fn roundtrip_every_node_kind() {
    roundtrips("x");
    roundtrips("x = 1 + 2");
    roundtrips("let y = \"hi\"");
    roundtrips("(1 - 2) * 3 / 4");
    roundtrips("1 == 2");
    roundtrips("1 != 2");
    roundtrips("f(1, 2)");
    roundtrips("[1, 2, 3]");
    roundtrips("(1, 2, )");
    roundtrips("{ let a = 1\nlet b = 2\na + b }");
    roundtrips("if 1 2 else 3");
    roundtrips("if 1 2");
    roundtrips("{ while 1 { 2 }\n3 }");
    roundtrips("{ for v : [1, 2] { v }\n0 }");
    roundtrips("(x, y) => x + y");
    roundtrips("(x => x + 1)(7)");
}

// Dense ids: with no pre-registered built-ins, the first three
// declarations get ids 0, 1 and 2 in order.
#[test]
fn dense_ids() {
    let mut ctx = Context::new();
    let a = ctx.decl("a".to_owned()).unwrap();
    let b = ctx.decl("b".to_owned()).unwrap();
    let c = ctx.decl("c".to_owned()).unwrap();
    assert_eq!(a.id(), 0);
    assert_eq!(b.id(), 1);
    assert_eq!(c.id(), 2);
}

// No shadowing: redeclaring a name fails even from an inner frame,
// because visibility in any active frame blocks a declaration.
#[test]
fn no_shadowing() {
    let mut ctx = Context::new();
    ctx.decl("x".to_owned()).unwrap();
    assert!(matches!(ctx.decl("x".to_owned()), Err(ErrorKind::AlreadyDeclared(_))));
    ctx.push();
    assert!(matches!(ctx.decl("x".to_owned()), Err(ErrorKind::AlreadyDeclared(_))));
}

// Scope containment: a name declared in a popped frame is gone.
#[test]
fn scope_containment() {
    let mut ctx = Context::new();
    ctx.push();
    ctx.decl("y".to_owned()).unwrap();
    assert!(ctx.by_name("y".to_owned()).is_ok());
    ctx.pop();
    assert!(matches!(ctx.by_name("y".to_owned()), Err(ErrorKind::NotDeclared(_))));
}

fn eval_str(input: &str) -> Value {
    let t = resolve_str(input).unwrap();
    let mut env = Env::new();
    eval(&t, &mut env, 10000).unwrap()
}

// Arithmetic over the value kinds: numbers add, a string concatenates
// the stringified operand, a list appends.
#[test]
fn arithmetic() {
    assert!(eval_str("1 + 2").value_eq(&Value::Num(3)));
    assert!(eval_str("\"a\" + 1").value_eq(&Value::Str("a1".to_owned())));
    assert!(eval_str("[1] + [2]").value_eq(&Value::List(vec![Value::Num(1), Value::Num(2)])));
    assert!(eval_str("[1] + 2").value_eq(&Value::List(vec![Value::Num(1), Value::Num(2)])));
    assert!(eval_str("2 * 3 + 6 / 2").value_eq(&Value::Num(9)));
    assert!(eval_str("1 == 2").value_eq(&Value::Num(0)));
    assert!(eval_str("1 != 2").value_eq(&Value::Num(1)));
}

#[test]
fn division_by_zero_is_an_error() {
    let t = parse_str("1 / 0");
    let mut env = Env::new();
    assert!(eval(&t, &mut env, 100).is_err());
}

// Dense ids through the whole pipeline: resolving three declarations
// with no pre-registered built-ins assigns ids 0, 1, 2 in order.
#[test]
fn dense_ids_in_resolved_tree() {
    let t = resolve_str("{ let a = 1\nlet b = 2\nlet c = 3 }").unwrap();
    match t.tree {
        TreeType::Block(stats) => {
            let ids: Vec<usize> = stats
                .iter()
                .map(|s| match &s.tree {
                    TreeType::DefRef(sym, _) => sym.id(),
                    _ => panic!("expected a declaration"),
                })
                .collect();
            assert_eq!(ids, vec![0, 1, 2]);
        },
        _ => panic!("expected a block"),
    }
}

// No shadowing, from source: redeclaring in the same block fails, and
// so does redeclaring from an inner block, because the outer name is
// still visible there.
#[test]
fn no_shadowing_from_source() {
    match resolve_str("{ let x = 1\nlet x = 2 }") {
        Err(e) => assert!(matches!(e.tpe, ErrorKind::AlreadyDeclared(_))),
        Ok(_) => panic!("redeclaration must fail"),
    }
    match resolve_str("{ let x = 1\n{ let x = 2 } }") {
        Err(e) => assert!(matches!(e.tpe, ErrorKind::AlreadyDeclared(_))),
        Ok(_) => panic!("inner redeclaration must fail"),
    }
}

// Scope containment, from source: a name declared under a conditional's
// branch is gone outside it.
#[test]
fn scope_containment_from_source() {
    match resolve_str("{ if 1 { let y = 2 }\ny }") {
        Err(e) => match e.tpe {
            ErrorKind::NotDeclared(n) => assert_eq!(n, "y"),
            _ => panic!("expected NotDeclared"),
        },
        Ok(_) => panic!("the branch-local name must not escape"),
    }
}

// Resolution totality: a resolved tree carries no raw name anywhere.
fn check_no_raw_names(t: &Tree) {
    match &t.tree {
        TreeType::Ident(_)
        | TreeType::Assign(..)
        | TreeType::Def(..)
        | TreeType::For(..)
        | TreeType::Func(..) => panic!("unresolved node survived resolution"),
        TreeType::DefRef(_, r) | TreeType::AssignRef(_, r) => check_no_raw_names(r),
        TreeType::ForRef(_, c, b) | TreeType::While(c, b) => {
            check_no_raw_names(c);
            check_no_raw_names(b);
        },
        TreeType::FuncRef(_, b) => check_no_raw_names(b),
        TreeType::Add(l, r)
        | TreeType::Sub(l, r)
        | TreeType::Mul(l, r)
        | TreeType::Div(l, r)
        | TreeType::Eq(l, r)
        | TreeType::Neq(l, r)
        | TreeType::Call(l, r) => {
            check_no_raw_names(l);
            check_no_raw_names(r);
        },
        TreeType::ListLit(v) | TreeType::Tuple(v) | TreeType::Block(v) => {
            for e in v {
                check_no_raw_names(e);
            }
        },
        TreeType::If(c, a, b) => {
            check_no_raw_names(c);
            check_no_raw_names(a);
            check_no_raw_names(b);
        },
        TreeType::Empty | TreeType::IntLit(_) | TreeType::StrLit(_) | TreeType::IdentRef(_)
        | TreeType::Error(_) => {},
    }
}

#[test]
fn resolution_is_total() {
    let t = resolve_str(
        "{ let f = (a, b) => a + b\nlet s = 0\nfor v : [1, 2] { s = f(s, v) }\ns }",
    )
    .unwrap();
    check_no_raw_names(&t);
}

// Loops, through the whole pipeline:
// { let i = 0  while i - 5 { i = i + 1 }  i }  =>  Num(5)
#[test]
fn while_loop() {
    assert!(eval_str("{ let i = 0\nwhile i - 5 { i = i + 1 }\ni }").value_eq(&Value::Num(5)));
}

// { let s = 0  for v : [1,2,3] { s = s + v }  s }  =>  Num(6)
#[test]
fn for_loop() {
    assert!(eval_str("{ let s = 0\nfor v : [1, 2, 3] { s = s + v }\ns }").value_eq(
        &Value::Num(6),
    ));
}

// Recursion hazard, pinned: the evaluator keeps one flat store shared
// by all active calls, so the recursive factorial's parameter slot is
// aliased across calls and the whole expression collapses to Num(1),
// not the 120 an implementation with isolated call frames would give.
#[test]
fn recursion_aliases_shared_slots() {
    let src = "{ let f = (n, rec) => if n == 1 { 1 } else { rec(n - 1, rec) * n }\nf(5, f) }";
    assert!(eval_str(src).value_eq(&Value::Num(1)));
}

#[test]
fn call_arity_checked() {
    let t = resolve_str("(a => 1)()").unwrap();
    let mut env = Env::new();
    match eval(&t, &mut env, 100) {
        Err(e) => assert!(matches!(e.tpe, ErrorKind::WrongArgCount(1, 0))),
        Ok(_) => assert!(false),
    }
}

#[test]
fn truthiness_parses_strings() {
    assert!(eval_str("if \"2\" 7 else 8").value_eq(&Value::Num(7)));
    let t = resolve_str("if \"x\" 7 else 8").unwrap();
    let mut env = Env::new();
    assert!(eval(&t, &mut env, 100).is_err());
}

#[test]
fn value_rendering() {
    assert_eq!(eval_str("\"n: \" + [1, \"two\", []]").to_str(), "n: [1, two, []]");
    assert_eq!(Value::Unit.to_str(), "Unit");
    assert_eq!(Value::Num(-42).to_str(), "-42");
}

#[test]
fn lexer_positions_and_errors() {
    let toks = Tokenizer::tokenize("a\n  b");
    assert_eq!(toks.len(), 2);
    assert_eq!(toks[0].pos.line, 0);
    assert_eq!(toks[0].pos.col, 0);
    assert_eq!(toks[1].pos.line, 1);
    assert_eq!(toks[1].pos.col, 2);
    // an unterminated string is an error token
    let bad = Tokenizer::tokenize("\"oops");
    assert!(matches!(bad[0].token, minilang::token::TokenType::Error));
}

#[test]
fn fractional_literal_is_rejected() {
    assert!(parse_str("1.5").has_error());
    assert!(!parse_str("15").has_error());
}

#[test]
fn unresolved_name_fails_eval() {
    let t = parse_str("x + 1");
    let mut env = Env::new();
    assert!(eval(&t, &mut env, 100).is_err());
}

#[test]
fn pos_string_draws_a_cursor() {
    let mut p = Position::new("src");
    p.next_line();
    p.next_col();
    assert_eq!(p.pos_string("ab\ncd\nef"), "cd\n~^");
}
