use minilang::parser::parse;
use minilang::tokenizer::Tokenizer;
use minilang::tree::{Tree, TreeType};

fn parse_str(input: &str) -> Tree {
    let toks = Tokenizer::tokenize(input);
    deblock(parse(&toks))
}

fn deblock(t: Tree) -> Tree {
    match t.tree {
        TreeType::Block(mut stats) if stats.len() == 1 => stats.pop().unwrap(),
        tree => Tree { tree, pos: t.pos },
    }
}

fn parse_no_error(input: &str) -> Tree {
    let t = parse_str(input);
    assert!(!t.has_error());
    t
}

fn is_error(input: &str) -> bool {
    parse_str(input).has_error()
}

fn tuple_len(input: &str) -> Option<usize> {
    match parse_no_error(input).tree {
        TreeType::Tuple(e) => Some(e.len()),
        _ => None,
    }
}

fn is_def(input: &str) -> bool {
    matches!(parse_no_error(input).tree, TreeType::Def(..))
}

fn is_call(input: &str) -> bool {
    matches!(parse_no_error(input).tree, TreeType::Call(..))
}

fn is_cond(input: &str) -> bool {
    matches!(parse_no_error(input).tree, TreeType::If(..))
}

fn is_add(input: &str) -> bool {
    matches!(parse_no_error(input).tree, TreeType::Add(..))
}

#[test]
fn parse_anon_call() {
    assert!(is_call("(x => x + 1)(7)"));
}

#[test]
fn parse_trailing_tuple() {
    match parse_no_error("{ let x = a()\n(1, 3) }").tree {
        TreeType::Block(stats) => match &stats.last().unwrap().tree {
            TreeType::Tuple(e) => assert_eq!(e.len(), 2),
            _ => assert!(false),
        },
        _ => assert!(false),
    }
    assert!(is_call("{ a() (1, 3) }"));
    assert!(!is_call("{ a()\n(1, 3) }"));
}

#[test]
fn parse_call_precedence() {
    assert!(is_add("a() + b"));
    assert!(is_add("a + b()"));
    assert!(is_call("(a + b)()"));
    assert!(is_def("let a = b()"));
    assert!(is_def("let a = b()()"));
}

#[test]
fn parse_def() {
    assert!(is_def("let f = x => x + 1"));
}

#[test]
fn parse_tuple_2() {
    assert_eq!(tuple_len("(x, y)"), Some(2));
    assert_eq!(tuple_len("(3, y, )"), Some(2));
}

#[test]
fn parse_tuple_1() {
    assert_eq!(tuple_len("(x, )"), Some(1));
}

#[test]
fn parse_tuple_0() {
    assert_eq!(tuple_len("()"), Some(0));
}

#[test]
fn parse_paren_expr() {
    assert!(is_add("(x + 4)"));
}

#[test]
fn parse_if() {
    assert!(is_cond("if 1 2"));
}

#[test]
fn parse_invalid_empty_tuple() {
    assert!(is_error("(,)"));
}
