//! The parser: tokens to an unresolved tree, by recursive descent with
//! iterative precedence climbing for binary operators. Malformed input
//! becomes error nodes in the tree; nothing stops the walk. A `(` opens
//! a call only on the same line as the token before it.

use vstd::prelude::*;

use crate::numtext::{parse_int, sp_parse_int};
use crate::position::{PosV, Position};
use crate::token::{TokV, Token, TokenType, TokenV};
use crate::tokenizer::tokens_view;
use crate::tree::{names_view, view_tree, view_trees, Tree, TreeType, TreeTypeV, TreeV};

verus! {

/// One parsed tree and the index of the next unconsumed token.
pub struct PRes {
    pub t: TreeV,
    pub next: int,
}

/// A parsed statement list, its trees and the next unconsumed token.
pub struct PStmts {
    pub stats: Seq<TreeV>,
    pub next: int,
}

/// Parsed comma-separated elements, whether a trailing comma was seen,
/// and the next unconsumed token.
pub struct PElems {
    pub elems: Seq<TreeV>,
    pub trailing: bool,
    pub next: int,
}

/// The position used for end-of-input diagnostics.
pub open spec fn eof_pos() -> PosV {
    PosV { file: Seq::<char>::empty(), line: usize::MAX as nat, col: usize::MAX as nat }
}

pub open spec fn eof_tree() -> TreeV {
    TreeV { tree: TreeTypeV::Error("unexpected EOF"@), pos: eof_pos() }
}

pub open spec fn err_tree(m: Seq<char>, p: PosV) -> TreeV {
    TreeV { tree: TreeTypeV::Error(m), pos: p }
}

/// The cursor after a sub-parse, clamped so that it always moves
/// forward and never past the end: the sub-parsers do move forward, so
/// the clamp changes nothing, but it makes progress self-evident.
pub open spec fn adv(a: int, j: int, n: int) -> int {
    if a < j <= n {
        j
    } else if a < n {
        a + 1
    } else {
        a
    }
}

/// Binary-operator tokens, lowest precedence first: `=>`, then `==` and
/// `!=`, then `+` and `-`, then `*` and `/`.
pub open spec fn is_binop_tok(t: TokV) -> bool {
    t is FatArrow || t is Eq || t is Neq || t is Plus || t is Minus || t is Star || t is Slash
}

pub open spec fn binop_prec(t: TokV) -> int {
    if t is FatArrow {
        0
    } else if t is Eq || t is Neq {
        1
    } else if t is Plus || t is Minus {
        2
    } else {
        3
    }
}

/// Whether every tree of `es` is a bare identifier.
pub open spec fn all_idents(es: Seq<TreeV>) -> bool {
    forall|k: int| 0 <= k < es.len() ==> (#[trigger] es[k]).tree is Ident
}

/// The names of a parameter list of bare identifiers.
pub open spec fn idents_names(es: Seq<TreeV>) -> Seq<Seq<char>> {
    Seq::new(
        es.len(),
        |k: int|
            if 0 <= k < es.len() {
                match es[k].tree {
                    TreeTypeV::Ident(n) => n,
                    _ => Seq::<char>::empty(),
                }
            } else {
                Seq::<char>::empty()
            },
    )
}

/// A function literal from `lhs => body`: the left operand must be one
/// identifier or a group of identifiers.
pub open spec fn make_func(l: TreeV, r: TreeV, p: PosV) -> TreeV {
    match l.tree {
        TreeTypeV::Ident(n) => TreeV { tree: TreeTypeV::Func(seq![n], Box::new(r)), pos: p },
        TreeTypeV::Tuple(es) => if all_idents(es) {
            TreeV { tree: TreeTypeV::Func(idents_names(es), Box::new(r)), pos: p }
        } else {
            err_tree("expected parameter list"@, p)
        },
        _ => err_tree("expected parameter list"@, p),
    }
}

/// The node built for a binary operator application.
pub open spec fn make_binop(op: TokenV, l: TreeV, r: TreeV) -> TreeV {
    if op.token is FatArrow {
        make_func(l, r, op.pos)
    } else if op.token is Eq {
        TreeV { tree: TreeTypeV::Eq(Box::new(l), Box::new(r)), pos: op.pos }
    } else if op.token is Neq {
        TreeV { tree: TreeTypeV::Neq(Box::new(l), Box::new(r)), pos: op.pos }
    } else if op.token is Plus {
        TreeV { tree: TreeTypeV::Add(Box::new(l), Box::new(r)), pos: op.pos }
    } else if op.token is Minus {
        TreeV { tree: TreeTypeV::Sub(Box::new(l), Box::new(r)), pos: op.pos }
    } else if op.token is Star {
        TreeV { tree: TreeTypeV::Mul(Box::new(l), Box::new(r)), pos: op.pos }
    } else if op.token is Slash {
        TreeV { tree: TreeTypeV::Div(Box::new(l), Box::new(r)), pos: op.pos }
    } else {
        err_tree("expected a binary operator"@, op.pos)
    }
}

/// A block from its statements: empty means unit, a single statement
/// that is not a declaration collapses to that statement, anything else
/// stays a block so the resolver sees a scope boundary.
pub open spec fn make_block(stats: Seq<TreeV>, p: PosV) -> TreeV {
    if stats.len() == 0 {
        TreeV { tree: TreeTypeV::Empty, pos: p }
    } else if stats.len() == 1 && !(stats[0].tree is Def) {
        stats[0]
    } else {
        TreeV { tree: TreeTypeV::Block(stats), pos: p }
    }
}

/// The argument trees of a call: a group's elements, or the single
/// argument itself.
pub open spec fn call_args(t: TreeV) -> Seq<TreeV> {
    match t.tree {
        TreeTypeV::Tuple(es) => es,
        _ => seq![t],
    }
}

/// A braced block or a bare expression.
pub open spec fn sp_block(ts: Seq<TokenV>, i: int) -> PRes
    decreases ts.len() - i, 4int,
{
    let n = ts.len() as int;
    if !(0 <= i < n) {
        PRes { t: eof_tree(), next: i }
    } else if ts[i].token is LeftBrace {
        let r = sp_stmts(ts, i + 1);
        PRes { t: make_block(r.stats, ts[i].pos), next: r.next }
    } else {
        sp_expr(ts, i)
    }
}

/// Statements until the closing brace; `while` and `for` only occur
/// here.
pub open spec fn sp_stmts(ts: Seq<TokenV>, i: int) -> PStmts
    decreases ts.len() - i, 5int,
{
    let n = ts.len() as int;
    if !(0 <= i < n) {
        PStmts { stats: seq![eof_tree()], next: if i < 0 { 0 } else { i } }
    } else if ts[i].token is RightBrace {
        PStmts { stats: Seq::<TreeV>::empty(), next: i + 1 }
    } else if ts[i].token is While {
        let c = sp_expr(ts, i + 1);
        let j = adv(i + 1, c.next, n);
        let b = sp_block(ts, j);
        let k = adv(j, b.next, n);
        let stmt = TreeV {
            tree: TreeTypeV::While(Box::new(c.t), Box::new(b.t)),
            pos: ts[i].pos,
        };
        let rest = sp_stmts(ts, k);
        PStmts { stats: seq![stmt] + rest.stats, next: rest.next }
    } else if ts[i].token is For {
        if i + 2 < n && ts[i + 1].token is Ident && ts[i + 2].token is Colon {
            let name = ts[i + 1].token->Ident_0;
            let c = sp_expr(ts, i + 3);
            let j = adv(i + 3, c.next, n);
            let b = sp_block(ts, j);
            let k = adv(j, b.next, n);
            let stmt = TreeV {
                tree: TreeTypeV::For(name, Box::new(c.t), Box::new(b.t)),
                pos: ts[i].pos,
            };
            let rest = sp_stmts(ts, k);
            PStmts { stats: seq![stmt] + rest.stats, next: rest.next }
        } else {
            let stmt = err_tree("expected 'for' name ':' collection"@, ts[i].pos);
            let rest = sp_stmts(ts, i + 1);
            PStmts { stats: seq![stmt] + rest.stats, next: rest.next }
        }
    } else {
        let e = sp_expr(ts, i);
        let j = adv(i, e.next, n);
        let rest = sp_stmts(ts, j);
        PStmts { stats: seq![e.t] + rest.stats, next: rest.next }
    }
}

/// A full expression: a simple expression, then precedence climbing.
pub open spec fn sp_expr(ts: Seq<TokenV>, i: int) -> PRes
    decreases ts.len() - i, 3int,
{
    let n = ts.len() as int;
    if !(0 <= i < n) {
        PRes { t: eof_tree(), next: if i < 0 { 0 } else { i } }
    } else {
        let l = sp_simple(ts, i);
        let j = adv(i, l.next, n);
        if j < n && ts[j].token is Assign {
            PRes { t: err_tree("invalid assignment target"@, ts[j].pos), next: j + 1 }
        } else if j < n && is_binop_tok(ts[j].token) {
            let m = sp_simple(ts, j + 1);
            let k = adv(j + 1, m.next, n);
            sp_binops(ts, k, l.t, ts[j], m.t)
        } else {
            PRes { t: l.t, next: j }
        }
    }
}

/// The three-register precedence-climbing loop over (left, op, middle).
pub open spec fn sp_binops(ts: Seq<TokenV>, i: int, left: TreeV, op: TokenV, middle: TreeV) -> PRes
    decreases ts.len() - i, 3int,
{
    let n = ts.len() as int;
    if 0 <= i < n && ts[i].token is Assign {
        PRes { t: err_tree("invalid assignment target"@, ts[i].pos), next: i + 1 }
    } else if 0 <= i < n && is_binop_tok(ts[i].token) {
        let op2 = ts[i];
        let m2 = sp_simple(ts, i + 1);
        let k = adv(i + 1, m2.next, n);
        if binop_prec(op.token) < binop_prec(op2.token) {
            sp_binops(ts, k, left, op, make_binop(op2, middle, m2.t))
        } else {
            sp_binops(ts, k, make_binop(op, left, middle), op2, m2.t)
        }
    } else {
        PRes { t: make_binop(op, left, middle), next: if i < 0 { 0 } else { i } }
    }
}

/// A primary expression, then any trailing same-line call chains.
pub open spec fn sp_simple(ts: Seq<TokenV>, i: int) -> PRes
    decreases ts.len() - i, 2int,
{
    let n = ts.len() as int;
    if !(0 <= i < n) {
        PRes { t: eof_tree(), next: if i < 0 { 0 } else { i } }
    } else if ts[i].token is LeftBrace {
        let r = sp_stmts(ts, i + 1);
        PRes { t: make_block(r.stats, ts[i].pos), next: r.next }
    } else {
        let prim = sp_primary(ts, i);
        sp_calls(ts, prim.t, adv(i, prim.next, n))
    }
}

/// A parenthesized group: a fold to its single element, or a tuple.
pub open spec fn sp_group(ts: Seq<TokenV>, i: int) -> PRes
    decreases ts.len() - i, 0int,
{
    let n = ts.len() as int;
    if !(0 <= i < n) {
        PRes { t: eof_tree(), next: if i < 0 { 0 } else { i } }
    } else {
        let p = ts[i].pos;
        let g = sp_elems(ts, i + 1, false);
        let t = if g.elems.len() == 1 && !g.trailing {
            g.elems[0]
        } else {
            TreeV { tree: TreeTypeV::Tuple(g.elems), pos: p }
        };
        if g.next < n && ts[g.next].token is RightPar {
            PRes { t, next: g.next + 1 }
        } else {
            PRes {
                t: err_tree("expected ')'"@, p),
                next: if g.next < n {
                    g.next + 1
                } else {
                    n
                },
            }
        }
    }
}

/// A bracketed list literal.
pub open spec fn sp_listlit(ts: Seq<TokenV>, i: int) -> PRes
    decreases ts.len() - i, 0int,
{
    let n = ts.len() as int;
    if !(0 <= i < n) {
        PRes { t: eof_tree(), next: if i < 0 { 0 } else { i } }
    } else {
        let p = ts[i].pos;
        let g = sp_elems(ts, i + 1, true);
        if g.next < n && ts[g.next].token is RightBracket {
            PRes { t: TreeV { tree: TreeTypeV::ListLit(g.elems), pos: p }, next: g.next + 1 }
        } else {
            PRes {
                t: err_tree("expected ']'"@, p),
                next: if g.next < n {
                    g.next + 1
                } else {
                    n
                },
            }
        }
    }
}

/// A conditional: condition, then-branch, optional else-branch.
pub open spec fn sp_if(ts: Seq<TokenV>, i: int) -> PRes
    decreases ts.len() - i, 0int,
{
    let n = ts.len() as int;
    if !(0 <= i < n) {
        PRes { t: eof_tree(), next: if i < 0 { 0 } else { i } }
    } else {
        let p = ts[i].pos;
        let c = sp_expr(ts, i + 1);
        let j = adv(i + 1, c.next, n);
        let th = sp_block(ts, j);
        let k = adv(j, th.next, n);
        if k < n && ts[k].token is Else {
            let el = sp_block(ts, k + 1);
            PRes {
                t: TreeV {
                    tree: TreeTypeV::If(Box::new(c.t), Box::new(th.t), Box::new(el.t)),
                    pos: p,
                },
                next: adv(k + 1, el.next, n),
            }
        } else {
            PRes {
                t: TreeV {
                    tree: TreeTypeV::If(
                        Box::new(c.t),
                        Box::new(th.t),
                        Box::new(TreeV { tree: TreeTypeV::Empty, pos: p }),
                    ),
                    pos: p,
                },
                next: k,
            }
        }
    }
}

/// A declaration: `let` name `=` expression.
pub open spec fn sp_let(ts: Seq<TokenV>, i: int) -> PRes
    decreases ts.len() - i, 0int,
{
    let n = ts.len() as int;
    if !(0 <= i < n) {
        PRes { t: eof_tree(), next: if i < 0 { 0 } else { i } }
    } else {
        let p = ts[i].pos;
        if i + 1 < n && ts[i + 1].token is Ident {
            if i + 2 < n && ts[i + 2].token is Assign {
                let r = sp_expr(ts, i + 3);
                PRes {
                    t: TreeV {
                        tree: TreeTypeV::Def(ts[i + 1].token->Ident_0, Box::new(r.t)),
                        pos: p,
                    },
                    next: adv(i + 3, r.next, n),
                }
            } else {
                PRes {
                    t: err_tree("expected '='"@, p),
                    next: if i + 2 < n {
                        i + 3
                    } else {
                        n
                    },
                }
            }
        } else {
            PRes {
                t: err_tree("expected identifier"@, p),
                next: if i + 1 < n {
                    i + 2
                } else {
                    n
                },
            }
        }
    }
}

/// One primary expression, without trailing calls.
pub open spec fn sp_primary(ts: Seq<TokenV>, i: int) -> PRes
    decreases ts.len() - i, 1int,
{
    let n = ts.len() as int;
    if !(0 <= i < n) {
        PRes { t: eof_tree(), next: if i < 0 { 0 } else { i } }
    } else {
        let p = ts[i].pos;
        match ts[i].token {
            TokV::Ident(name) => if i + 1 < n && ts[i + 1].token is Assign {
                let r = sp_expr(ts, i + 2);
                PRes {
                    t: TreeV { tree: TreeTypeV::Assign(name, Box::new(r.t)), pos: p },
                    next: adv(i + 2, r.next, n),
                }
            } else {
                PRes { t: TreeV { tree: TreeTypeV::Ident(name), pos: p }, next: i + 1 }
            },
            TokV::NumLit(txt) => match sp_parse_int(txt) {
                Some(v) => PRes {
                    t: TreeV { tree: TreeTypeV::IntLit(v), pos: p },
                    next: i + 1,
                },
                None => PRes { t: err_tree("expected integer number"@, p), next: i + 1 },
            },
            TokV::StrLit(s) => PRes {
                t: TreeV { tree: TreeTypeV::StrLit(s), pos: p },
                next: i + 1,
            },
            TokV::LeftPar => sp_group(ts, i),
            TokV::LeftBracket => sp_listlit(ts, i),
            TokV::If => sp_if(ts, i),
            TokV::Let => sp_let(ts, i),
            _ => PRes { t: err_tree("expected expression or '('"@, p), next: i + 1 },
        }
    }
}

/// Trailing call chains: a `(` directly after a primary, on the same
/// line as the token before it, applies the primary to the group.
pub open spec fn sp_calls(ts: Seq<TokenV>, callee: TreeV, i: int) -> PRes
    decreases ts.len() - i, 1int,
{
    let n = ts.len() as int;
    if 0 < i < n && ts[i].token is LeftPar && ts[i].pos.line == ts[i - 1].pos.line {
        let g = sp_elems(ts, i + 1, false);
        let gt = if g.elems.len() == 1 && !g.trailing {
            g.elems[0]
        } else {
            TreeV { tree: TreeTypeV::Tuple(g.elems), pos: ts[i].pos }
        };
        let args = TreeV { tree: TreeTypeV::ListLit(call_args(gt)), pos: ts[i].pos };
        if g.next < n && ts[g.next].token is RightPar {
            let t2 = TreeV {
                tree: TreeTypeV::Call(Box::new(callee), Box::new(args)),
                pos: callee.pos,
            };
            sp_calls(ts, t2, adv(i, g.next + 1, n))
        } else {
            PRes {
                t: err_tree("expected ')'"@, ts[i].pos),
                next: if g.next < n {
                    g.next + 1
                } else {
                    n
                },
            }
        }
    } else {
        PRes { t: callee, next: if i < 0 { 0 } else { i } }
    }
}

pub open spec fn elems_end(t: TokV, forlist: bool) -> bool {
    if forlist {
        t is RightBracket
    } else {
        t is RightPar || t is RightBrace
    }
}

/// Comma-separated expressions up to the closing delimiter, which stays
/// unconsumed.
pub open spec fn sp_elems(ts: Seq<TokenV>, i: int, forlist: bool) -> PElems
    decreases ts.len() - i, 4int,
{
    let n = ts.len() as int;
    if !(0 <= i < n) || elems_end(ts[i].token, forlist) {
        PElems {
            elems: Seq::<TreeV>::empty(),
            trailing: false,
            next: if i < 0 {
                0
            } else if i > n {
                n
            } else {
                i
            },
        }
    } else {
        let e = sp_expr(ts, i);
        let j = adv(i, e.next, n);
        if !(j < n) || elems_end(ts[j].token, forlist) {
            PElems { elems: seq![e.t], trailing: false, next: j }
        } else if ts[j].token is Comma {
            if !(j + 1 < n) || elems_end(ts[j + 1].token, forlist) {
                PElems { elems: seq![e.t], trailing: true, next: j + 1 }
            } else {
                let rest = sp_elems(ts, j + 1, forlist);
                PElems {
                    elems: seq![e.t] + rest.elems,
                    trailing: rest.trailing,
                    next: rest.next,
                }
            }
        } else {
            PElems {
                elems: seq![e.t, err_tree("expected ',', ')' or '}'"@, ts[j].pos)],
                trailing: false,
                next: j,
            }
        }
    }
}

/// The whole token stream as one tree; any token left unconsumed after
/// the parse becomes a trailing-input error node.
pub open spec fn sp_parse(ts: Seq<TokenV>) -> TreeV {
    let n = ts.len() as int;
    let b = sp_block(ts, 0);
    if b.t.tree is Error {
        b.t
    } else if b.next < n {
        TreeV {
            tree: TreeTypeV::Block(
                seq![b.t, err_tree("expected EOF"@, ts[b.next].pos)],
            ),
            pos: b.t.pos,
        }
    } else {
        b.t
    }
}

fn eof_err() -> (t: Tree)
    ensures
        t@ == eof_tree(),
{
    Tree { tree: TreeType::Error("unexpected EOF".to_owned()), pos: Position::eof() }
}

fn mk_err(m: &str, p: &Position) -> (t: Tree)
    ensures
        t@ == err_tree(m@, p@),
{
    Tree { tree: TreeType::Error(m.to_owned()), pos: p.clone() }
}

/// Builds a function literal from the left operand of `=>`.
fn mk_func(l: Tree, r: Tree, p: &Position) -> (t: Tree)
    ensures
        t@ == make_func(l@, r@, p@),
{
    match l.tree {
        TreeType::Ident(n) => {
            let mut ps: Vec<String> = Vec::new();
            ps.push(n);
            let t = Tree {
                tree: TreeType::Func(ps, Box::new(r)),
                pos: p.clone(),
            };
            proof {
                assert(names_view(t.tree->Func_0@) =~= seq![l@.tree->Ident_0]);
            }
            t
        },
        TreeType::Tuple(es) => {
            let ghost esv = view_trees(es@);
            let mut ps: Vec<String> = Vec::new();
            let mut k: usize = 0;
            let mut ok = true;
            while k < es.len()
                invariant
                    k <= es@.len(),
                    esv == view_trees(es@),
                    ok ==> names_view(ps@) == idents_names(esv).take(k as int),
                    ok ==> forall|j: int| 0 <= j < k ==> (#[trigger] esv[j]).tree is Ident,
                    !ok ==> !all_idents(esv),
                decreases es@.len() - k,
            {
                if ok {
                    match &es[k].tree {
                        TreeType::Ident(n) => {
                            ps.push(n.clone());
                            proof {
                                assert(names_view(ps@) =~= idents_names(esv).take(k as int + 1));
                            }
                        },
                        _ => {
                            ok = false;
                            proof {
                                assert(!(esv[k as int].tree is Ident));
                            }
                        },
                    }
                }
                k = k + 1;
            }
            if ok {
                proof {
                    assert(all_idents(esv));
                    assert(idents_names(esv).take(esv.len() as int) =~= idents_names(esv));
                }
                Tree { tree: TreeType::Func(ps, Box::new(r)), pos: p.clone() }
            } else {
                mk_err("expected parameter list", p)
            }
        },
        _ => mk_err("expected parameter list", p),
    }
}

/// Builds the node for one binary operator application.
fn mk_binop(op: &Token, l: Tree, r: Tree) -> (t: Tree)
    ensures
        t@ == make_binop(op@, l@, r@),
{
    match &op.token {
        TokenType::FatArrow => mk_func(l, r, &op.pos),
        TokenType::Eq => Tree {
            tree: TreeType::Eq(Box::new(l), Box::new(r)),
            pos: op.pos.clone(),
        },
        TokenType::Neq => Tree {
            tree: TreeType::Neq(Box::new(l), Box::new(r)),
            pos: op.pos.clone(),
        },
        TokenType::Plus => Tree {
            tree: TreeType::Add(Box::new(l), Box::new(r)),
            pos: op.pos.clone(),
        },
        TokenType::Minus => Tree {
            tree: TreeType::Sub(Box::new(l), Box::new(r)),
            pos: op.pos.clone(),
        },
        TokenType::Star => Tree {
            tree: TreeType::Mul(Box::new(l), Box::new(r)),
            pos: op.pos.clone(),
        },
        TokenType::Slash => Tree {
            tree: TreeType::Div(Box::new(l), Box::new(r)),
            pos: op.pos.clone(),
        },
        _ => mk_err("expected a binary operator", &op.pos),
    }
}

/// Wraps parsed statements into a block node.
fn mk_block(stats: Vec<Tree>, p: &Position) -> (t: Tree)
    ensures
        t@ == make_block(view_trees(stats@), p@),
{
    if stats.len() == 0 {
        proof {
            assert(view_trees(stats@).len() == 0);
        }
        Tree { tree: TreeType::Empty, pos: p.clone() }
    } else if stats.len() == 1 && !(matches!(stats[0].tree, TreeType::Def(..))) {
        let mut stats = stats;
        let ghost sv = view_trees(stats@);
        let only = stats.pop().unwrap();
        proof {
            assert(sv[0] == only@);
        }
        only
    } else {
        Tree { tree: TreeType::Block(stats), pos: p.clone() }
    }
}

fn is_binop_token(t: &TokenType) -> (r: bool)
    ensures
        r == is_binop_tok(t@),
{
    matches!(
        t,
        TokenType::FatArrow
        | TokenType::Eq
        | TokenType::Neq
        | TokenType::Plus
        | TokenType::Minus
        | TokenType::Star
        | TokenType::Slash
    )
}

fn prec_of(t: &TokenType) -> (r: u32)
    ensures
        r as int == binop_prec(t@),
{
    match t {
        TokenType::FatArrow => 0,
        TokenType::Eq | TokenType::Neq => 1,
        TokenType::Plus | TokenType::Minus => 2,
        _ => 3,
    }
}

fn is_elems_end(t: &TokenType, forlist: bool) -> (r: bool)
    ensures
        r == elems_end(t@, forlist),
{
    if forlist {
        matches!(t, TokenType::RightBracket)
    } else {
        matches!(t, TokenType::RightPar | TokenType::RightBrace)
    }
}

/// A braced block or a bare expression.
#[verifier::rlimit(100)]
fn parse_block(ts: &Vec<Token>, i: usize) -> (r: (Tree, usize))
    requires
        i <= ts@.len(),
    ensures
        r.0@ == sp_block(tokens_view(ts@), i as int).t,
        r.1 as int == sp_block(tokens_view(ts@), i as int).next,
        i <= r.1 <= ts@.len(),
        i < ts@.len() ==> i < r.1,
    decreases ts@.len() - i, 4int,
{
    let n = ts.len();
    if i >= n {
        return (eof_err(), i);
    }
    if matches!(ts[i].token, TokenType::LeftBrace) {
        let (stats, j) = parse_stmts(ts, i + 1);
        (mk_block(stats, &ts[i].pos), j)
    } else {
        parse_expr(ts, i)
    }
}

/// Statements until the closing brace.
#[verifier::rlimit(100)]
fn parse_stmts(ts: &Vec<Token>, i: usize) -> (r: (Vec<Tree>, usize))
    requires
        i <= ts@.len(),
    ensures
        view_trees(r.0@) == sp_stmts(tokens_view(ts@), i as int).stats,
        r.1 as int == sp_stmts(tokens_view(ts@), i as int).next,
        i <= r.1 <= ts@.len(),
    decreases ts@.len() - i, 5int,
{
    let ghost tv = tokens_view(ts@);
    let n = ts.len();
    if i >= n {
        let mut stats: Vec<Tree> = Vec::new();
        stats.push(eof_err());
        proof {
            assert(view_trees(stats@) =~= seq![eof_tree()]);
        }
        return (stats, i);
    }
    if matches!(ts[i].token, TokenType::RightBrace) {
        let stats: Vec<Tree> = Vec::new();
        proof {
            assert(view_trees(stats@) =~= Seq::<TreeV>::empty());
        }
        return (stats, i + 1);
    }
    if matches!(ts[i].token, TokenType::While) {
        let (c, j) = parse_expr(ts, i + 1);
        let (b, k) = parse_block(ts, j);
        let stmt = Tree {
            tree: TreeType::While(Box::new(c), Box::new(b)),
            pos: ts[i].pos.clone(),
        };
        let ghost stmtv = stmt@;
        let (mut rest, e) = parse_stmts(ts, k);
        rest.insert(0, stmt);
        proof {
            assert(view_trees(rest@) =~= seq![stmtv] + sp_stmts(tv, k as int).stats);
        }
        return (rest, e);
    }
    if matches!(ts[i].token, TokenType::For) {
        let header = n - i > 2 && matches!(ts[i + 1].token, TokenType::Ident(_)) && matches!(
            ts[i + 2].token,
            TokenType::Colon,
        );
        if header {
            let name = match &ts[i + 1].token {
                TokenType::Ident(nm) => nm.clone(),
                _ => String::new(),
            };
            let (c, j) = parse_expr(ts, i + 3);
            let (b, k) = parse_block(ts, j);
            let stmt = Tree {
                tree: TreeType::For(name, Box::new(c), Box::new(b)),
                pos: ts[i].pos.clone(),
            };
            let ghost stmtv = stmt@;
            let (mut rest, e) = parse_stmts(ts, k);
            rest.insert(0, stmt);
            proof {
                assert(view_trees(rest@) =~= seq![stmtv] + sp_stmts(tv, k as int).stats);
            }
            return (rest, e);
        } else {
            let stmt = mk_err("expected 'for' name ':' collection", &ts[i].pos);
            let ghost stmtv = stmt@;
            let (mut rest, e) = parse_stmts(ts, i + 1);
            rest.insert(0, stmt);
            proof {
                assert(view_trees(rest@) =~= seq![stmtv] + sp_stmts(tv, i as int + 1).stats);
            }
            return (rest, e);
        }
    }
    let (e, j) = parse_expr(ts, i);
    let ghost ev = e@;
    let (mut rest, k) = parse_stmts(ts, j);
    rest.insert(0, e);
    proof {
        assert(view_trees(rest@) =~= seq![ev] + sp_stmts(tv, j as int).stats);
    }
    (rest, k)
}

/// A full expression: a simple expression, then precedence climbing.
#[verifier::rlimit(100)]
fn parse_expr(ts: &Vec<Token>, i: usize) -> (r: (Tree, usize))
    requires
        i <= ts@.len(),
    ensures
        r.0@ == sp_expr(tokens_view(ts@), i as int).t,
        r.1 as int == sp_expr(tokens_view(ts@), i as int).next,
        i <= r.1 <= ts@.len(),
        i < ts@.len() ==> i < r.1,
    decreases ts@.len() - i, 3int,
{
    let n = ts.len();
    if i >= n {
        return (eof_err(), i);
    }
    let (l, j) = parse_simple(ts, i);
    if j < n && matches!(ts[j].token, TokenType::Assign) {
        return (mk_err("invalid assignment target", &ts[j].pos), j + 1);
    }
    if j < n && is_binop_token(&ts[j].token) {
        let (m, k) = parse_simple(ts, j + 1);
        parse_binops(ts, k, l, j, m)
    } else {
        (l, j)
    }
}

/// The (left, op, middle) precedence-climbing loop; `opi` indexes the
/// pending operator token.
#[verifier::rlimit(100)]
fn parse_binops(ts: &Vec<Token>, i: usize, left: Tree, opi: usize, middle: Tree) -> (r: (
    Tree,
    usize,
))
    requires
        i <= ts@.len(),
        opi < ts@.len(),
    ensures
        r.0@ == sp_binops(tokens_view(ts@), i as int, left@, tokens_view(ts@)[opi as int], middle@).t,
        r.1 as int == sp_binops(
            tokens_view(ts@),
            i as int,
            left@,
            tokens_view(ts@)[opi as int],
            middle@,
        ).next,
        i <= r.1 <= ts@.len(),
    decreases ts@.len() - i, 3int,
{
    let n = ts.len();
    if i < n && matches!(ts[i].token, TokenType::Assign) {
        return (mk_err("invalid assignment target", &ts[i].pos), i + 1);
    }
    if i < n && is_binop_token(&ts[i].token) {
        let (m2, k) = parse_simple(ts, i + 1);
        if prec_of(&ts[opi].token) < prec_of(&ts[i].token) {
            let inner = mk_binop(&ts[i], middle, m2);
            parse_binops(ts, k, left, opi, inner)
        } else {
            let folded = mk_binop(&ts[opi], left, middle);
            parse_binops(ts, k, folded, i, m2)
        }
    } else {
        (mk_binop(&ts[opi], left, middle), i)
    }
}

/// A primary expression, then any trailing same-line call chains.
#[verifier::rlimit(100)]
fn parse_simple(ts: &Vec<Token>, i: usize) -> (r: (Tree, usize))
    requires
        i <= ts@.len(),
    ensures
        r.0@ == sp_simple(tokens_view(ts@), i as int).t,
        r.1 as int == sp_simple(tokens_view(ts@), i as int).next,
        i <= r.1 <= ts@.len(),
        i < ts@.len() ==> i < r.1,
    decreases ts@.len() - i, 2int,
{
    let n = ts.len();
    if i >= n {
        return (eof_err(), i);
    }
    if matches!(ts[i].token, TokenType::LeftBrace) {
        let (stats, j) = parse_stmts(ts, i + 1);
        return (mk_block(stats, &ts[i].pos), j);
    }
    let (prim, j) = parse_primary(ts, i);
    parse_calls(ts, prim, j)
}

/// One primary expression, without trailing calls.
#[verifier::rlimit(100)]
#[verifier::spinoff_prover]
fn parse_primary(ts: &Vec<Token>, i: usize) -> (r: (Tree, usize))
    requires
        i < ts@.len(),
        !(tokens_view(ts@)[i as int].token is LeftBrace),
    ensures
        r.0@ == sp_primary(tokens_view(ts@), i as int).t,
        r.1 as int == sp_primary(tokens_view(ts@), i as int).next,
        i < r.1 <= ts@.len(),
    decreases ts@.len() - i, 1int,
{
    let n = ts.len();
    let p = &ts[i].pos;
    match &ts[i].token {
        TokenType::Ident(name) => {
            if i + 1 < n && matches!(ts[i + 1].token, TokenType::Assign) {
                let (rhs, j) = parse_expr(ts, i + 2);
                (
                    Tree {
                        tree: TreeType::Assign(name.clone(), Box::new(rhs)),
                        pos: p.clone(),
                    },
                    j,
                )
            } else {
                (Tree { tree: TreeType::Ident(name.clone()), pos: p.clone() }, i + 1)
            }
        },
        TokenType::NumLit(txt) => {
            match parse_int(txt.as_str()) {
                Some(v) => (Tree { tree: TreeType::IntLit(v), pos: p.clone() }, i + 1),
                None => (mk_err("expected integer number", p), i + 1),
            }
        },
        TokenType::StrLit(s) => (
            Tree { tree: TreeType::StrLit(s.clone()), pos: p.clone() },
            i + 1,
        ),
        TokenType::LeftPar => parse_group(ts, i),
        TokenType::LeftBracket => parse_listlit(ts, i),
        TokenType::If => parse_if(ts, i),
        TokenType::Let => parse_let(ts, i),
        _ => (mk_err("expected expression or '('", p), i + 1),
    }
}

/// A parenthesized group: a fold to its single element, or a tuple.
#[verifier::rlimit(100)]
fn parse_group(ts: &Vec<Token>, i: usize) -> (r: (Tree, usize))
    requires
        i < ts@.len(),
    ensures
        r.0@ == sp_group(tokens_view(ts@), i as int).t,
        r.1 as int == sp_group(tokens_view(ts@), i as int).next,
        i < r.1 <= ts@.len(),
    decreases ts@.len() - i, 0int,
{
    let n = ts.len();
    let p = &ts[i].pos;
    let (elems, trailing, j) = parse_elems(ts, i + 1, false);
    let t = if elems.len() == 1 && !trailing {
        let mut elems = elems;
        let ghost ev = view_trees(elems@);
        let only = elems.pop().unwrap();
        proof {
            assert(ev[0] == only@);
        }
        only
    } else {
        Tree { tree: TreeType::Tuple(elems), pos: p.clone() }
    };
    if j < n && matches!(ts[j].token, TokenType::RightPar) {
        (t, j + 1)
    } else {
        (mk_err("expected ')'", p), if j < n { j + 1 } else { n })
    }
}

/// A bracketed list literal.
#[verifier::rlimit(100)]
fn parse_listlit(ts: &Vec<Token>, i: usize) -> (r: (Tree, usize))
    requires
        i < ts@.len(),
    ensures
        r.0@ == sp_listlit(tokens_view(ts@), i as int).t,
        r.1 as int == sp_listlit(tokens_view(ts@), i as int).next,
        i < r.1 <= ts@.len(),
    decreases ts@.len() - i, 0int,
{
    let n = ts.len();
    let p = &ts[i].pos;
    let (elems, _, j) = parse_elems(ts, i + 1, true);
    if j < n && matches!(ts[j].token, TokenType::RightBracket) {
        (Tree { tree: TreeType::ListLit(elems), pos: p.clone() }, j + 1)
    } else {
        (mk_err("expected ']'", p), if j < n { j + 1 } else { n })
    }
}

fn is_tok_else(t: &TokenType) -> (r: bool)
    ensures
        r == (t@ is Else),
{
    matches!(t, TokenType::Else)
}

/// A conditional: condition, then-branch, optional else-branch.
#[verifier::rlimit(100)]
fn parse_if(ts: &Vec<Token>, i: usize) -> (r: (Tree, usize))
    requires
        i < ts@.len(),
    ensures
        r.0@ == sp_if(tokens_view(ts@), i as int).t,
        r.1 as int == sp_if(tokens_view(ts@), i as int).next,
        i < r.1 <= ts@.len(),
    decreases ts@.len() - i, 0int,
{
    let n = ts.len();
    let ghost tv = tokens_view(ts@);
    let p = &ts[i].pos;
    let (c, j) = parse_expr(ts, i + 1);
    proof {
        assert(adv(i as int + 1, sp_expr(tv, i as int + 1).next, tv.len() as int) == j as int);
    }
    let (th, k) = parse_block(ts, j);
    proof {
        assert(adv(j as int, sp_block(tv, j as int).next, tv.len() as int) == k as int);
    }
    if k < n && is_tok_else(&ts[k].token) {
        let (el, e) = parse_block(ts, k + 1);
        proof {
            assert(adv(k as int + 1, sp_block(tv, k as int + 1).next, tv.len() as int)
                == e as int);
        }
        let t = Tree {
            tree: TreeType::If(Box::new(c), Box::new(th), Box::new(el)),
            pos: p.clone(),
        };
        proof {
            assert(t@ == sp_if(tv, i as int).t);
        }
        (t, e)
    } else {
        let el = Tree { tree: TreeType::Empty, pos: p.clone() };
        proof {
            assert(el@ == TreeV { tree: TreeTypeV::Empty, pos: tv[i as int].pos });
        }
        let t = Tree {
            tree: TreeType::If(Box::new(c), Box::new(th), Box::new(el)),
            pos: p.clone(),
        };
        proof {
            assert(t@ == sp_if(tv, i as int).t);
        }
        (t, k)
    }
}

/// A declaration: `let` name `=` expression.
#[verifier::rlimit(100)]
fn parse_let(ts: &Vec<Token>, i: usize) -> (r: (Tree, usize))
    requires
        i < ts@.len(),
    ensures
        r.0@ == sp_let(tokens_view(ts@), i as int).t,
        r.1 as int == sp_let(tokens_view(ts@), i as int).next,
        i < r.1 <= ts@.len(),
    decreases ts@.len() - i, 0int,
{
    let n = ts.len();
    let p = &ts[i].pos;
    if i + 1 < n && matches!(ts[i + 1].token, TokenType::Ident(_)) {
        if i + 2 < n && matches!(ts[i + 2].token, TokenType::Assign) {
            let name = match &ts[i + 1].token {
                TokenType::Ident(nm) => nm.clone(),
                _ => String::new(),
            };
            let (rhs, j) = parse_expr(ts, i + 3);
            (Tree { tree: TreeType::Def(name, Box::new(rhs)), pos: p.clone() }, j)
        } else {
            (mk_err("expected '='", p), if i + 2 < n { i + 3 } else { n })
        }
    } else {
        (mk_err("expected identifier", p), if i + 1 < n { i + 2 } else { n })
    }
}

/// Trailing same-line call chains after a primary.
#[verifier::rlimit(100)]
#[verifier::spinoff_prover]
fn parse_calls(ts: &Vec<Token>, callee: Tree, i: usize) -> (r: (Tree, usize))
    requires
        i <= ts@.len(),
    ensures
        r.0@ == sp_calls(tokens_view(ts@), callee@, i as int).t,
        r.1 as int == sp_calls(tokens_view(ts@), callee@, i as int).next,
        i <= r.1 <= ts@.len(),
    decreases ts@.len() - i, 1int,
{
    let n = ts.len();
    let open = i > 0 && i < n && matches!(ts[i].token, TokenType::LeftPar) && ts[i].pos.line == ts[i
        - 1].pos.line;
    if !open {
        return (callee, i);
    }
    let (elems, trailing, j) = parse_elems(ts, i + 1, false);
    let ghost tv = tokens_view(ts@);
    let ghost gsp = sp_elems(tv, i as int + 1, false);
    let gt = if elems.len() == 1 && !trailing {
        let mut elems = elems;
        let ghost ev = view_trees(elems@);
        let only = elems.pop().unwrap();
        proof {
            assert(ev[0] == only@);
        }
        only
    } else {
        Tree { tree: TreeType::Tuple(elems), pos: ts[i].pos.clone() }
    };
    let ghost gtv = gt@;
    let argvec = match gt.tree {
        TreeType::Tuple(es) => es,
        other => {
            let mut v: Vec<Tree> = Vec::new();
            v.push(Tree { tree: other, pos: gt.pos });
            v
        },
    };
    proof {
        assert(view_trees(argvec@) =~= call_args(gtv));
    }
    let args = Tree { tree: TreeType::ListLit(argvec), pos: ts[i].pos.clone() };
    if j < n && matches!(ts[j].token, TokenType::RightPar) {
        let cpos = callee.pos.clone();
        let ghost cv = callee@;
        let t2 = Tree {
            tree: TreeType::Call(Box::new(callee), Box::new(args)),
            pos: cpos,
        };
        proof {
            assert(adv(i as int, gsp.next + 1, ts@.len() as int) == j + 1);
            assert(view_trees(argvec@) == call_args(gtv));
            assert(args@ == TreeV {
                tree: TreeTypeV::ListLit(call_args(gtv)),
                pos: tv[i as int].pos,
            });
            assert(t2@.tree == TreeTypeV::Call(
                Box::new(cv),
                Box::new(TreeV { tree: TreeTypeV::ListLit(call_args(gtv)), pos: tv[i as int].pos }),
            ));
        }
        parse_calls(ts, t2, j + 1)
    } else {
        (mk_err("expected ')'", &ts[i].pos), if j < n { j + 1 } else { n })
    }
}

/// Comma-separated expressions up to the closing delimiter.
#[verifier::rlimit(100)]
fn parse_elems(ts: &Vec<Token>, i: usize, forlist: bool) -> (r: (Vec<Tree>, bool, usize))
    requires
        i <= ts@.len(),
    ensures
        view_trees(r.0@) == sp_elems(tokens_view(ts@), i as int, forlist).elems,
        r.1 == sp_elems(tokens_view(ts@), i as int, forlist).trailing,
        r.2 as int == sp_elems(tokens_view(ts@), i as int, forlist).next,
        i <= r.2 <= ts@.len(),
    decreases ts@.len() - i, 4int,
{
    let ghost tv = tokens_view(ts@);
    let n = ts.len();
    if i >= n || is_elems_end(&ts[i].token, forlist) {
        let out: Vec<Tree> = Vec::new();
        proof {
            assert(view_trees(out@) =~= Seq::<TreeV>::empty());
        }
        return (out, false, i);
    }
    let (e, j) = parse_expr(ts, i);
    let ghost ev = e@;
    if j >= n || is_elems_end(&ts[j].token, forlist) {
        let mut out: Vec<Tree> = Vec::new();
        out.push(e);
        proof {
            assert(view_trees(out@) =~= seq![ev]);
        }
        return (out, false, j);
    }
    if matches!(ts[j].token, TokenType::Comma) {
        if j + 1 >= n || is_elems_end(&ts[j + 1].token, forlist) {
            let mut out: Vec<Tree> = Vec::new();
            out.push(e);
            proof {
                assert(view_trees(out@) =~= seq![ev]);
            }
            return (out, true, j + 1);
        }
        let (mut rest, trailing, k) = parse_elems(ts, j + 1, forlist);
        rest.insert(0, e);
        proof {
            assert(view_trees(rest@) =~= seq![ev] + sp_elems(tv, j as int + 1, forlist).elems);
        }
        (rest, trailing, k)
    } else {
        let mut out: Vec<Tree> = Vec::new();
        out.push(e);
        out.push(mk_err("expected ',', ')' or '}'", &ts[j].pos));
        proof {
            assert(view_trees(out@) =~= sp_elems(tv, i as int, forlist).elems);
        }
        (out, false, j)
    }
}

/// Parses a whole token stream into one tree. Malformed input yields
/// error nodes inside the tree; input left over after a complete parse
/// becomes a trailing-input error node.
pub fn parse(tokens: &Vec<Token>) -> (r: Tree)
    ensures
        r@ == sp_parse(tokens_view(tokens@)),
{
    let n = tokens.len();
    let (b, j) = parse_block(tokens, 0);
    if b.is_error() {
        b
    } else if j < n {
        let ghost bv = b@;
        let pos = b.pos.clone();
        let mut stats: Vec<Tree> = Vec::new();
        stats.push(b);
        stats.push(mk_err("expected EOF", &tokens[j].pos));
        proof {
            assert(view_trees(stats@) =~= seq![bv, err_tree(
                "expected EOF"@,
                tokens_view(tokens@)[j as int].pos,
            )]);
        }
        Tree { tree: TreeType::Block(stats), pos }
    } else {
        b
    }
}

} // verus!
