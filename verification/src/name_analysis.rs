//! Name resolution: a scope-aware fold that rewrites every name into a
//! symbol reference. Nodes that open a lexical scope (functions, for
//! loops, blocks, conditionals, while loops) push a frame before their
//! own rule runs and pop it after their children are done; declarations
//! allocate dense ids through the shared `Context`. The fold rebuilds
//! the tree immutably: it never mutates through a shared handle.

use vstd::prelude::*;

use crate::context::{ctx_wf, decl_spec, lookup_spec, Context, CtxV};
use crate::symbol::{SymV, SymbolRef};
use crate::token::{TokV, TokenV};
use crate::tree::{names_view, view_trees, Tree, TreeType, TreeTypeV, TreeV};
use crate::utils::{with_pos_spec, ErrKindV, ErrV, Error, ErrorKind};

verus! {

/// The resolving pass; it keeps no state of its own.
pub struct NameAnalysis {}

impl NameAnalysis {
    pub fn new() -> NameAnalysis {
        NameAnalysis {  }
    }
}

pub open spec fn push_frame(c: CtxV) -> CtxV {
    CtxV { symbols: c.symbols, frames: c.frames.push(Seq::<SymV>::empty()) }
}

pub open spec fn pop_frame(c: CtxV) -> CtxV {
    CtxV { symbols: c.symbols, frames: c.frames.drop_last() }
}

/// Declares each parameter name in order, in the innermost frame.
pub open spec fn sp_decl_params(c: CtxV, ns: Seq<Seq<char>>) -> Result<(Seq<SymV>, CtxV), ErrKindV>
    decreases ns.len(),
{
    if ns.len() == 0 {
        Ok((Seq::<SymV>::empty(), c))
    } else {
        let d = decl_spec(c, ns[0]);
        match d.0 {
            Ok(s) => match sp_decl_params(d.1, ns.drop_first()) {
                Ok((rest, c2)) => Ok((seq![s] + rest, c2)),
                Err(e) => Err(e),
            },
            Err(e) => Err(e),
        }
    }
}

/// The resolution of one tree against the table: names become symbol
/// references, scope-opening nodes get a fresh frame around their whole
/// handling, and the table threads left to right through the children.
/// A failed lookup or declaration stops the fold with its error.
pub open spec fn sp_resolve(t: TreeV, c: CtxV) -> Result<(TreeV, CtxV), ErrV>
    decreases t, 1int,
{
    match t.tree {
        TreeTypeV::Ident(n) => match lookup_spec(c, n) {
            Ok(s) => Ok((TreeV { tree: TreeTypeV::IdentRef(s), pos: t.pos }, c)),
            Err(k) => Err(with_pos_spec(k, t.pos)),
        },
        TreeTypeV::Assign(n, r) => match lookup_spec(c, n) {
            Ok(s) => match sp_resolve(*r, c) {
                Ok((r2, c2)) => Ok(
                    (TreeV { tree: TreeTypeV::AssignRef(s, Box::new(r2)), pos: t.pos }, c2),
                ),
                Err(e) => Err(e),
            },
            Err(k) => Err(with_pos_spec(k, t.pos)),
        },
        TreeTypeV::Def(n, r) => {
            let d = decl_spec(c, n);
            match d.0 {
                Ok(s) => match sp_resolve(*r, d.1) {
                    Ok((r2, c2)) => Ok(
                        (TreeV { tree: TreeTypeV::DefRef(s, Box::new(r2)), pos: t.pos }, c2),
                    ),
                    Err(e) => Err(e),
                },
                Err(k) => Err(with_pos_spec(k, t.pos)),
            }
        },
        TreeTypeV::For(n, coll, b) => {
            let d = decl_spec(push_frame(c), n);
            match d.0 {
                Ok(s) => match sp_resolve(*coll, d.1) {
                    Ok((coll2, c2)) => match sp_resolve(*b, c2) {
                        Ok((b2, c3)) => Ok(
                            (
                                TreeV {
                                    tree: TreeTypeV::ForRef(s, Box::new(coll2), Box::new(b2)),
                                    pos: t.pos,
                                },
                                pop_frame(c3),
                            ),
                        ),
                        Err(e) => Err(e),
                    },
                    Err(e) => Err(e),
                },
                Err(k) => Err(with_pos_spec(k, t.pos)),
            }
        },
        TreeTypeV::Func(ns, b) => match sp_decl_params(push_frame(c), ns) {
            Ok((ps, c1)) => match sp_resolve(*b, c1) {
                Ok((b2, c2)) => Ok(
                    (
                        TreeV { tree: TreeTypeV::FuncRef(ps, Box::new(b2)), pos: t.pos },
                        pop_frame(c2),
                    ),
                ),
                Err(e) => Err(e),
            },
            Err(k) => Err(with_pos_spec(k, t.pos)),
        },
        TreeTypeV::Block(v) => match sp_resolve_seq(v, push_frame(c)) {
            Ok((v2, c2)) => Ok(
                (TreeV { tree: TreeTypeV::Block(v2), pos: t.pos }, pop_frame(c2)),
            ),
            Err(e) => Err(e),
        },
        TreeTypeV::If(cnd, th, el) => match sp_resolve(*cnd, push_frame(c)) {
            Ok((c2t, c2)) => match sp_resolve(*th, c2) {
                Ok((th2, c3)) => match sp_resolve(*el, c3) {
                    Ok((el2, c4)) => Ok(
                        (
                            TreeV {
                                tree: TreeTypeV::If(
                                    Box::new(c2t),
                                    Box::new(th2),
                                    Box::new(el2),
                                ),
                                pos: t.pos,
                            },
                            pop_frame(c4),
                        ),
                    ),
                    Err(e) => Err(e),
                },
                Err(e) => Err(e),
            },
            Err(e) => Err(e),
        },
        TreeTypeV::While(cnd, b) => match sp_resolve(*cnd, push_frame(c)) {
            Ok((c2t, c2)) => match sp_resolve(*b, c2) {
                Ok((b2, c3)) => Ok(
                    (
                        TreeV { tree: TreeTypeV::While(Box::new(c2t), Box::new(b2)), pos: t.pos },
                        pop_frame(c3),
                    ),
                ),
                Err(e) => Err(e),
            },
            Err(e) => Err(e),
        },
        TreeTypeV::Add(l, r) => sp_resolve_pair(t, *l, *r, c),
        TreeTypeV::Sub(l, r) => sp_resolve_pair(t, *l, *r, c),
        TreeTypeV::Mul(l, r) => sp_resolve_pair(t, *l, *r, c),
        TreeTypeV::Div(l, r) => sp_resolve_pair(t, *l, *r, c),
        TreeTypeV::Eq(l, r) => sp_resolve_pair(t, *l, *r, c),
        TreeTypeV::Neq(l, r) => sp_resolve_pair(t, *l, *r, c),
        TreeTypeV::Call(l, r) => sp_resolve_pair(t, *l, *r, c),
        TreeTypeV::ListLit(v) => match sp_resolve_seq(v, c) {
            Ok((v2, c2)) => Ok((TreeV { tree: TreeTypeV::ListLit(v2), pos: t.pos }, c2)),
            Err(e) => Err(e),
        },
        TreeTypeV::Tuple(v) => match sp_resolve_seq(v, c) {
            Ok((v2, c2)) => Ok((TreeV { tree: TreeTypeV::Tuple(v2), pos: t.pos }, c2)),
            Err(e) => Err(e),
        },
        _ => Ok((t, c)),
    }
}

/// Both children of a two-child node, left first, rebuilt under the
/// same node kind.
pub open spec fn sp_resolve_pair(t: TreeV, l: TreeV, r: TreeV, c: CtxV) -> Result<
    (TreeV, CtxV),
    ErrV,
>
    decreases t, 0int,
    when (decreases_to!(t => l)) && (decreases_to!(t => r))
{
    match sp_resolve(l, c) {
        Ok((l2, c2)) => match sp_resolve(r, c2) {
            Ok((r2, c3)) => {
                let tree = match t.tree {
                    TreeTypeV::Add(_, _) => TreeTypeV::Add(Box::new(l2), Box::new(r2)),
                    TreeTypeV::Sub(_, _) => TreeTypeV::Sub(Box::new(l2), Box::new(r2)),
                    TreeTypeV::Mul(_, _) => TreeTypeV::Mul(Box::new(l2), Box::new(r2)),
                    TreeTypeV::Div(_, _) => TreeTypeV::Div(Box::new(l2), Box::new(r2)),
                    TreeTypeV::Eq(_, _) => TreeTypeV::Eq(Box::new(l2), Box::new(r2)),
                    TreeTypeV::Neq(_, _) => TreeTypeV::Neq(Box::new(l2), Box::new(r2)),
                    _ => TreeTypeV::Call(Box::new(l2), Box::new(r2)),
                };
                Ok((TreeV { tree, pos: t.pos }, c3))
            },
            Err(e) => Err(e),
        },
        Err(e) => Err(e),
    }
}

/// A sequence of children in order, threading the table left to right.
pub open spec fn sp_resolve_seq(v: Seq<TreeV>, c: CtxV) -> Result<(Seq<TreeV>, CtxV), ErrV>
    decreases v, 0int,
{
    if v.len() == 0 {
        Ok((Seq::<TreeV>::empty(), c))
    } else {
        match sp_resolve(v[0], c) {
            Ok((t2, c2)) => match sp_resolve_seq(v.drop_first(), c2) {
                Ok((rest, c3)) => Ok((seq![t2] + rest, c3)),
                Err(e) => Err(e),
            },
            Err(e) => Err(e),
        }
    }
}

/// Whether the tree carries no resolved node yet, as every tree fresh
/// from the parser does.
pub open spec fn no_refs(t: TreeV) -> bool
    decreases t,
{
    match t.tree {
        TreeTypeV::DefRef(_, _) => false,
        TreeTypeV::AssignRef(_, _) => false,
        TreeTypeV::IdentRef(_) => false,
        TreeTypeV::ForRef(_, _, _) => false,
        TreeTypeV::FuncRef(_, _) => false,
        TreeTypeV::Def(_, r) => no_refs(*r),
        TreeTypeV::Assign(_, r) => no_refs(*r),
        TreeTypeV::For(_, c, b) => no_refs(*c) && no_refs(*b),
        TreeTypeV::Func(_, b) => no_refs(*b),
        TreeTypeV::Add(l, r) => no_refs(*l) && no_refs(*r),
        TreeTypeV::Sub(l, r) => no_refs(*l) && no_refs(*r),
        TreeTypeV::Mul(l, r) => no_refs(*l) && no_refs(*r),
        TreeTypeV::Div(l, r) => no_refs(*l) && no_refs(*r),
        TreeTypeV::Eq(l, r) => no_refs(*l) && no_refs(*r),
        TreeTypeV::Neq(l, r) => no_refs(*l) && no_refs(*r),
        TreeTypeV::Call(l, r) => no_refs(*l) && no_refs(*r),
        TreeTypeV::ListLit(v) => none_refs(v),
        TreeTypeV::Tuple(v) => none_refs(v),
        TreeTypeV::Block(v) => none_refs(v),
        TreeTypeV::If(c, th, el) => no_refs(*c) && no_refs(*th) && no_refs(*el),
        TreeTypeV::While(c, b) => no_refs(*c) && no_refs(*b),
        _ => true,
    }
}

pub open spec fn none_refs(v: Seq<TreeV>) -> bool
    decreases v,
{
    if v.len() == 0 {
        true
    } else {
        no_refs(v[0]) && none_refs(v.drop_first())
    }
}

/// Whether no unresolved node remains anywhere in the tree.
pub open spec fn is_resolved(t: TreeV) -> bool
    decreases t,
{
    match t.tree {
        TreeTypeV::Ident(_) => false,
        TreeTypeV::Assign(_, _) => false,
        TreeTypeV::Def(_, _) => false,
        TreeTypeV::For(_, _, _) => false,
        TreeTypeV::Func(_, _) => false,
        TreeTypeV::DefRef(_, r) => is_resolved(*r),
        TreeTypeV::AssignRef(_, r) => is_resolved(*r),
        TreeTypeV::IdentRef(_) => true,
        TreeTypeV::ForRef(_, cl, b) => is_resolved(*cl) && is_resolved(*b),
        TreeTypeV::FuncRef(_, b) => is_resolved(*b),
        TreeTypeV::Add(l, r) => is_resolved(*l) && is_resolved(*r),
        TreeTypeV::Sub(l, r) => is_resolved(*l) && is_resolved(*r),
        TreeTypeV::Mul(l, r) => is_resolved(*l) && is_resolved(*r),
        TreeTypeV::Div(l, r) => is_resolved(*l) && is_resolved(*r),
        TreeTypeV::Eq(l, r) => is_resolved(*l) && is_resolved(*r),
        TreeTypeV::Neq(l, r) => is_resolved(*l) && is_resolved(*r),
        TreeTypeV::Call(l, r) => is_resolved(*l) && is_resolved(*r),
        TreeTypeV::ListLit(v) => all_resolved(v),
        TreeTypeV::Tuple(v) => all_resolved(v),
        TreeTypeV::Block(v) => all_resolved(v),
        TreeTypeV::If(cnd, th, el) => is_resolved(*cnd) && is_resolved(*th) && is_resolved(*el),
        TreeTypeV::While(cnd, b) => is_resolved(*cnd) && is_resolved(*b),
        _ => true,
    }
}

pub open spec fn all_resolved(v: Seq<TreeV>) -> bool
    decreases v,
{
    if v.len() == 0 {
        true
    } else {
        is_resolved(v[0]) && all_resolved(v.drop_first())
    }
}

/// Resolution totality: a tree that name analysis accepts contains no
/// unresolved identifier, assignment, declaration, for or function node.
pub proof fn lemma_resolution_total(t: TreeV, c: CtxV)
    requires
        no_refs(t),
    ensures
        sp_resolve(t, c) matches Ok(p) ==> is_resolved(p.0),
    decreases t, 1int,
{
    if sp_resolve(t, c) is Ok {
        match t.tree {
            TreeTypeV::Assign(n, r) => {
                lemma_resolution_total(*r, c);
            },
            TreeTypeV::Def(n, r) => {
                lemma_resolution_total(*r, decl_spec(c, n).1);
            },
            TreeTypeV::For(n, coll, b) => {
                let d = decl_spec(push_frame(c), n);
                lemma_resolution_total(*coll, d.1);
                match sp_resolve(*coll, d.1) {
                    Ok(p1) => {
                        lemma_resolution_total(*b, p1.1);
                    },
                    _ => {},
                }
            },
            TreeTypeV::Func(ns, b) => {
                match sp_decl_params(push_frame(c), ns) {
                    Ok(p0) => {
                        lemma_resolution_total(*b, p0.1);
                    },
                    _ => {},
                }
            },
            TreeTypeV::Block(v) => {
                lemma_resolution_total_seq(v, push_frame(c));
            },
            TreeTypeV::If(cnd, th, el) => {
                lemma_resolution_total(*cnd, push_frame(c));
                match sp_resolve(*cnd, push_frame(c)) {
                    Ok(p1) => {
                        lemma_resolution_total(*th, p1.1);
                        match sp_resolve(*th, p1.1) {
                            Ok(p2) => {
                                lemma_resolution_total(*el, p2.1);
                            },
                            _ => {},
                        }
                    },
                    _ => {},
                }
            },
            TreeTypeV::While(cnd, b) => {
                lemma_resolution_total(*cnd, push_frame(c));
                match sp_resolve(*cnd, push_frame(c)) {
                    Ok(p1) => {
                        lemma_resolution_total(*b, p1.1);
                    },
                    _ => {},
                }
            },
            TreeTypeV::Add(l, r) => {
                lemma_resolution_total_pair(t, *l, *r, c);
            },
            TreeTypeV::Sub(l, r) => {
                lemma_resolution_total_pair(t, *l, *r, c);
            },
            TreeTypeV::Mul(l, r) => {
                lemma_resolution_total_pair(t, *l, *r, c);
            },
            TreeTypeV::Div(l, r) => {
                lemma_resolution_total_pair(t, *l, *r, c);
            },
            TreeTypeV::Eq(l, r) => {
                lemma_resolution_total_pair(t, *l, *r, c);
            },
            TreeTypeV::Neq(l, r) => {
                lemma_resolution_total_pair(t, *l, *r, c);
            },
            TreeTypeV::Call(l, r) => {
                lemma_resolution_total_pair(t, *l, *r, c);
            },
            TreeTypeV::ListLit(v) => {
                lemma_resolution_total_seq(v, c);
            },
            TreeTypeV::Tuple(v) => {
                lemma_resolution_total_seq(v, c);
            },
            _ => {},
        }
    }
}

proof fn lemma_resolution_total_pair(t: TreeV, l: TreeV, r: TreeV, c: CtxV)
    requires
        decreases_to!(t => l),
        decreases_to!(t => r),
        no_refs(l),
        no_refs(r),
    ensures
        sp_resolve_pair(t, l, r, c) matches Ok(p) ==> is_resolved(p.0),
    decreases t, 0int,
{
    if sp_resolve_pair(t, l, r, c) is Ok {
        lemma_resolution_total(l, c);
        match sp_resolve(l, c) {
            Ok(pl) => {
                lemma_resolution_total(r, pl.1);
            },
            _ => {},
        }
    }
}

proof fn lemma_resolution_total_seq(v: Seq<TreeV>, c: CtxV)
    requires
        none_refs(v),
    ensures
        sp_resolve_seq(v, c) matches Ok(p) ==> all_resolved(p.0),
    decreases v, 1int,
{
    if sp_resolve_seq(v, c) is Ok && v.len() > 0 {
        lemma_resolution_total(v[0], c);
        match sp_resolve(v[0], c) {
            Ok(p0) => {
                lemma_resolution_total_seq(v.drop_first(), p0.1);
                match sp_resolve_seq(v.drop_first(), p0.1) {
                    Ok(pr) => {
                        assert(all_resolved(seq![p0.0] + pr.0)) by {
                            assert((seq![p0.0] + pr.0)[0] == p0.0);
                            assert((seq![p0.0] + pr.0).drop_first() =~= pr.0);
                        }
                    },
                    _ => {},
                }
            },
            _ => {},
        }
    }
}

/// Resolves a parsed tree against the table: every name becomes a
/// symbol reference, scope-opening nodes get a frame around their whole
/// handling, and declarations take the next dense ids. On failure the
/// table is left mid-resolution and should be discarded.
#[verifier::rlimit(100)]
pub fn resolve(tree: &Tree, ctx: &mut Context) -> (r: Result<Tree, Error>)
    requires
        ctx_wf(old(ctx)@),
        old(ctx)@.frames.len() >= 1,
    ensures
        match r {
            Ok(t2) => sp_resolve(tree@, old(ctx)@) == Ok::<(TreeV, CtxV), ErrV>(
                (t2@, final(ctx)@),
            ) && ctx_wf(final(ctx)@) && final(ctx)@.frames.len() == old(ctx)@.frames.len(),
            Err(e) => sp_resolve(tree@, old(ctx)@) == Err::<(TreeV, CtxV), ErrV>(e@),
        },
    decreases *tree, 1int, 0int,
{
    match &tree.tree {
        TreeType::Ident(n) => {
            match ctx.by_name(n.clone()) {
                Ok(s) => Ok(Tree { tree: TreeType::IdentRef(s), pos: tree.pos.clone() }),
                Err(k) => Err(k.with_position(&tree.pos)),
            }
        },
        TreeType::Assign(n, rhs) => {
            match ctx.by_name(n.clone()) {
                Ok(s) => match resolve(rhs, ctx) {
                    Ok(r2) => Ok(
                        Tree {
                            tree: TreeType::AssignRef(s, Box::new(r2)),
                            pos: tree.pos.clone(),
                        },
                    ),
                    Err(e) => Err(e),
                },
                Err(k) => Err(k.with_position(&tree.pos)),
            }
        },
        TreeType::Def(n, rhs) => {
            match ctx.decl(n.clone()) {
                Ok(s) => match resolve(rhs, ctx) {
                    Ok(r2) => Ok(
                        Tree {
                            tree: TreeType::DefRef(s, Box::new(r2)),
                            pos: tree.pos.clone(),
                        },
                    ),
                    Err(e) => Err(e),
                },
                Err(k) => Err(k.with_position(&tree.pos)),
            }
        },
        TreeType::For(n, coll, body) => {
            ctx.push();
            match ctx.decl(n.clone()) {
                Ok(s) => match resolve(coll, ctx) {
                    Ok(c2) => match resolve(body, ctx) {
                        Ok(b2) => {
                            ctx.pop();
                            Ok(
                                Tree {
                                    tree: TreeType::ForRef(s, Box::new(c2), Box::new(b2)),
                                    pos: tree.pos.clone(),
                                },
                            )
                        },
                        Err(e) => Err(e),
                    },
                    Err(e) => Err(e),
                },
                Err(k) => Err(k.with_position(&tree.pos)),
            }
        },
        TreeType::Func(ns, body) => {
            ctx.push();
            proof {
                assert(names_view(ns@).skip(0) =~= names_view(ns@));
            }
            match decl_params(ns, 0, ctx) {
                Ok(ps) => match resolve(body, ctx) {
                    Ok(b2) => {
                        ctx.pop();
                        Ok(
                            Tree {
                                tree: TreeType::FuncRef(ps, Box::new(b2)),
                                pos: tree.pos.clone(),
                            },
                        )
                    },
                    Err(e) => Err(e),
                },
                Err(k) => Err(k.with_position(&tree.pos)),
            }
        },
        TreeType::Block(v) => {
            ctx.push();
            proof {
                assert(view_trees(v@).skip(0) =~= view_trees(v@));
            }
            match resolve_list(v, 0, ctx) {
                Ok(v2) => {
                    ctx.pop();
                    Ok(Tree { tree: TreeType::Block(v2), pos: tree.pos.clone() })
                },
                Err(e) => Err(e),
            }
        },
        TreeType::ListLit(v) => {
            proof {
                assert(view_trees(v@).skip(0) =~= view_trees(v@));
            }
            match resolve_list(v, 0, ctx) {
                Ok(v2) => Ok(Tree { tree: TreeType::ListLit(v2), pos: tree.pos.clone() }),
                Err(e) => Err(e),
            }
        },
        TreeType::Tuple(v) => {
            proof {
                assert(view_trees(v@).skip(0) =~= view_trees(v@));
            }
            match resolve_list(v, 0, ctx) {
                Ok(v2) => Ok(Tree { tree: TreeType::Tuple(v2), pos: tree.pos.clone() }),
                Err(e) => Err(e),
            }
        },
        TreeType::If(c, th, el) => {
            ctx.push();
            match resolve(c, ctx) {
                Ok(c2) => match resolve(th, ctx) {
                    Ok(th2) => match resolve(el, ctx) {
                        Ok(el2) => {
                            ctx.pop();
                            Ok(
                                Tree {
                                    tree: TreeType::If(
                                        Box::new(c2),
                                        Box::new(th2),
                                        Box::new(el2),
                                    ),
                                    pos: tree.pos.clone(),
                                },
                            )
                        },
                        Err(e) => Err(e),
                    },
                    Err(e) => Err(e),
                },
                Err(e) => Err(e),
            }
        },
        TreeType::While(c, body) => {
            ctx.push();
            match resolve(c, ctx) {
                Ok(c2) => match resolve(body, ctx) {
                    Ok(b2) => {
                        ctx.pop();
                        Ok(
                            Tree {
                                tree: TreeType::While(Box::new(c2), Box::new(b2)),
                                pos: tree.pos.clone(),
                            },
                        )
                    },
                    Err(e) => Err(e),
                },
                Err(e) => Err(e),
            }
        },
        TreeType::Add(l, r) => resolve_pair(tree, l, r, ctx),
        TreeType::Sub(l, r) => resolve_pair(tree, l, r, ctx),
        TreeType::Mul(l, r) => resolve_pair(tree, l, r, ctx),
        TreeType::Div(l, r) => resolve_pair(tree, l, r, ctx),
        TreeType::Eq(l, r) => resolve_pair(tree, l, r, ctx),
        TreeType::Neq(l, r) => resolve_pair(tree, l, r, ctx),
        TreeType::Call(l, r) => resolve_pair(tree, l, r, ctx),
        _ => Ok(tree.clone()),
    }
}

/// Both children of a two-child node, left first, rebuilt under the
/// same node kind.
#[verifier::rlimit(100)]
fn resolve_pair(tree: &Tree, l: &Tree, r: &Tree, ctx: &mut Context) -> (res: Result<Tree, Error>)
    requires
        ctx_wf(old(ctx)@),
        old(ctx)@.frames.len() >= 1,
        decreases_to!(*tree => *l),
        decreases_to!(*tree => *r),
        match tree@.tree {
            TreeTypeV::Add(bl, br) => *bl == l@ && *br == r@,
            TreeTypeV::Sub(bl, br) => *bl == l@ && *br == r@,
            TreeTypeV::Mul(bl, br) => *bl == l@ && *br == r@,
            TreeTypeV::Div(bl, br) => *bl == l@ && *br == r@,
            TreeTypeV::Eq(bl, br) => *bl == l@ && *br == r@,
            TreeTypeV::Neq(bl, br) => *bl == l@ && *br == r@,
            TreeTypeV::Call(bl, br) => *bl == l@ && *br == r@,
            _ => false,
        },
    ensures
        match res {
            Ok(t2) => sp_resolve_pair(tree@, l@, r@, old(ctx)@) == Ok::<(TreeV, CtxV), ErrV>(
                (t2@, final(ctx)@),
            ) && ctx_wf(final(ctx)@) && final(ctx)@.frames.len() == old(ctx)@.frames.len(),
            Err(e) => sp_resolve_pair(tree@, l@, r@, old(ctx)@) == Err::<(TreeV, CtxV), ErrV>(e@),
        },
    decreases *tree, 0int, 0int,
{
    match resolve(l, ctx) {
        Ok(l2) => match resolve(r, ctx) {
            Ok(r2) => {
                let tree2 = match &tree.tree {
                    TreeType::Add(_, _) => TreeType::Add(Box::new(l2), Box::new(r2)),
                    TreeType::Sub(_, _) => TreeType::Sub(Box::new(l2), Box::new(r2)),
                    TreeType::Mul(_, _) => TreeType::Mul(Box::new(l2), Box::new(r2)),
                    TreeType::Div(_, _) => TreeType::Div(Box::new(l2), Box::new(r2)),
                    TreeType::Eq(_, _) => TreeType::Eq(Box::new(l2), Box::new(r2)),
                    TreeType::Neq(_, _) => TreeType::Neq(Box::new(l2), Box::new(r2)),
                    _ => TreeType::Call(Box::new(l2), Box::new(r2)),
                };
                Ok(Tree { tree: tree2, pos: tree.pos.clone() })
            },
            Err(e) => Err(e),
        },
        Err(e) => Err(e),
    }
}

/// A sequence of children in order, threading the table left to right.
fn resolve_list(ts: &Vec<Tree>, i: usize, ctx: &mut Context) -> (r: Result<Vec<Tree>, Error>)
    requires
        i <= ts@.len(),
        ctx_wf(old(ctx)@),
        old(ctx)@.frames.len() >= 1,
    ensures
        match r {
            Ok(v2) => sp_resolve_seq(view_trees(ts@).skip(i as int), old(ctx)@) == Ok::<
                (Seq<TreeV>, CtxV),
                ErrV,
            >((view_trees(v2@), final(ctx)@)) && ctx_wf(final(ctx)@)
                && final(ctx)@.frames.len() == old(ctx)@.frames.len(),
            Err(e) => sp_resolve_seq(view_trees(ts@).skip(i as int), old(ctx)@) == Err::<
                (Seq<TreeV>, CtxV),
                ErrV,
            >(e@),
        },
    decreases *ts, 0int, ts@.len() - i,
{
    let ghost whole = view_trees(ts@).skip(i as int);
    if i >= ts.len() {
        let empty: Vec<Tree> = Vec::new();
        proof {
            assert(whole =~= Seq::<TreeV>::empty());
            assert(view_trees(empty@) =~= Seq::<TreeV>::empty());
        }
        return Ok(empty);
    }
    proof {
        assert(whole[0] == view_trees(ts@)[i as int]);
        assert(whole.drop_first() =~= view_trees(ts@).skip(i as int + 1));
    }
    match resolve(&ts[i], ctx) {
        Ok(t2) => {
            match resolve_list(ts, i + 1, ctx) {
                Ok(mut vs) => {
                    let ghost t2v = t2@;
                    let ghost oldvs = vs@;
                    vs.insert(0, t2);
                    proof {
                        assert(view_trees(vs@) =~= seq![t2v] + view_trees(oldvs));
                    }
                    Ok(vs)
                },
                Err(e) => Err(e),
            }
        },
        Err(e) => Err(e),
    }
}

/// Declares each parameter name in order.
fn decl_params(ns: &Vec<String>, i: usize, ctx: &mut Context) -> (r: Result<
    Vec<SymbolRef>,
    ErrorKind,
>)
    requires
        i <= ns@.len(),
        ctx_wf(old(ctx)@),
        old(ctx)@.frames.len() >= 1,
    ensures
        match r {
            Ok(ps) => sp_decl_params(old(ctx)@, names_view(ns@).skip(i as int)) == Ok::<
                (Seq<SymV>, CtxV),
                ErrKindV,
            >((crate::tree::syms_view(ps@), final(ctx)@)) && ctx_wf(final(ctx)@)
                && final(ctx)@.frames.len() == old(ctx)@.frames.len(),
            Err(e) => sp_decl_params(old(ctx)@, names_view(ns@).skip(i as int)) == Err::<
                (Seq<SymV>, CtxV),
                ErrKindV,
            >(e@),
        },
    decreases ns@.len() - i,
{
    let ghost whole = names_view(ns@).skip(i as int);
    if i >= ns.len() {
        let empty: Vec<SymbolRef> = Vec::new();
        proof {
            assert(whole =~= Seq::<Seq<char>>::empty());
            assert(crate::tree::syms_view(empty@) =~= Seq::<SymV>::empty());
        }
        return Ok(empty);
    }
    proof {
        assert(whole[0] == names_view(ns@)[i as int]);
        assert(whole.drop_first() =~= names_view(ns@).skip(i as int + 1));
    }
    match ctx.decl(ns[i].clone()) {
        Ok(s) => {
            match decl_params(ns, i + 1, ctx) {
                Ok(mut rest) => {
                    let ghost sv = s@;
                    let ghost oldps = rest@;
                    rest.insert(0, s);
                    proof {
                        assert(crate::tree::syms_view(rest@) =~= seq![sv]
                            + crate::tree::syms_view(oldps));
                    }
                    Ok(rest)
                },
                Err(e) => Err(e),
            }
        },
        Err(e) => Err(e),
    }
}

impl Tree {
    /// Runs the resolving pass over this tree, as `resolve` does.
    pub fn transform(self, _pass: &NameAnalysis, ctx: &mut Context) -> (r: Result<Tree, Error>)
        requires
            ctx_wf(old(ctx)@),
            old(ctx)@.frames.len() >= 1,
        ensures
            match r {
                Ok(t2) => sp_resolve(self@, old(ctx)@) == Ok::<(TreeV, CtxV), ErrV>(
                    (t2@, final(ctx)@),
                ) && ctx_wf(final(ctx)@) && final(ctx)@.frames.len() == old(ctx)@.frames.len(),
                Err(e) => sp_resolve(self@, old(ctx)@) == Err::<(TreeV, CtxV), ErrV>(e@),
            },
    {
        resolve(&self, ctx)
    }
}

/// A single element extends an unresolved sequence.
proof fn lemma_none_refs_cons(x: TreeV, rest: Seq<TreeV>)
    requires
        no_refs(x),
        none_refs(rest),
    ensures
        none_refs(seq![x] + rest),
{
    assert((seq![x] + rest)[0] == x);
    assert((seq![x] + rest).drop_first() =~= rest);
}

/// The node built for a binary operator carries no resolved node when
/// its operands carry none.
proof fn lemma_np_binop_node(op: TokenV, l: TreeV, r: TreeV)
    requires
        no_refs(l),
        no_refs(r),
    ensures
        no_refs(crate::parser::make_binop(op, l, r)),
{
}

/// A block node built from unresolved statements is unresolved.
proof fn lemma_np_make_block(stats: Seq<TreeV>, p: crate::position::PosV)
    requires
        none_refs(stats),
    ensures
        no_refs(crate::parser::make_block(stats, p)),
{
}

proof fn lemma_np_block(ts: Seq<TokenV>, i: int)
    ensures
        no_refs(crate::parser::sp_block(ts, i).t),
    decreases ts.len() - i, 4int,
{
    let n = ts.len() as int;
    if 0 <= i < n {
        if ts[i].token is LeftBrace {
            lemma_np_stmts(ts, i + 1);
            lemma_np_make_block(crate::parser::sp_stmts(ts, i + 1).stats, ts[i].pos);
        } else {
            lemma_np_expr(ts, i);
        }
    }
}

proof fn lemma_np_stmts(ts: Seq<TokenV>, i: int)
    ensures
        none_refs(crate::parser::sp_stmts(ts, i).stats),
    decreases ts.len() - i, 5int,
{
    let n = ts.len() as int;
    if !(0 <= i < n) {
        assert(no_refs(crate::parser::eof_tree()));
        lemma_none_refs_cons(crate::parser::eof_tree(), Seq::<TreeV>::empty());
        assert(seq![crate::parser::eof_tree()] + Seq::<TreeV>::empty() =~= seq![
            crate::parser::eof_tree(),
        ]);
    } else if ts[i].token is RightBrace {
        assert(none_refs(Seq::<TreeV>::empty()));
    } else if ts[i].token is While {
        let c = crate::parser::sp_expr(ts, i + 1);
        let j = crate::parser::adv(i + 1, c.next, n);
        let b = crate::parser::sp_block(ts, j);
        let k = crate::parser::adv(j, b.next, n);
        lemma_np_expr(ts, i + 1);
        lemma_np_block(ts, j);
        lemma_np_stmts(ts, k);
        let stmt = TreeV {
            tree: TreeTypeV::While(Box::new(c.t), Box::new(b.t)),
            pos: ts[i].pos,
        };
        assert(no_refs(stmt));
        lemma_none_refs_cons(stmt, crate::parser::sp_stmts(ts, k).stats);
        assert(crate::parser::sp_stmts(ts, i).stats == seq![stmt] + crate::parser::sp_stmts(
            ts,
            k,
        ).stats);
    } else if ts[i].token is For {
        if i + 2 < n && ts[i + 1].token is Ident && ts[i + 2].token is Colon {
            let c = crate::parser::sp_expr(ts, i + 3);
            let j = crate::parser::adv(i + 3, c.next, n);
            let b = crate::parser::sp_block(ts, j);
            let k = crate::parser::adv(j, b.next, n);
            lemma_np_expr(ts, i + 3);
            lemma_np_block(ts, j);
            lemma_np_stmts(ts, k);
            let stmt = TreeV {
                tree: TreeTypeV::For(
                    ts[i + 1].token->Ident_0,
                    Box::new(c.t),
                    Box::new(b.t),
                ),
                pos: ts[i].pos,
            };
            assert(no_refs(stmt));
            lemma_none_refs_cons(stmt, crate::parser::sp_stmts(ts, k).stats);
            assert(crate::parser::sp_stmts(ts, i).stats == seq![stmt]
                + crate::parser::sp_stmts(ts, k).stats);
        } else {
            lemma_np_stmts(ts, i + 1);
            lemma_none_refs_cons(
                crate::parser::err_tree("expected 'for' name ':' collection"@, ts[i].pos),
                crate::parser::sp_stmts(ts, i + 1).stats,
            );
        }
    } else {
        let e = crate::parser::sp_expr(ts, i);
        let j = crate::parser::adv(i, e.next, n);
        lemma_np_expr(ts, i);
        lemma_np_stmts(ts, j);
        lemma_none_refs_cons(e.t, crate::parser::sp_stmts(ts, j).stats);
        assert(crate::parser::sp_stmts(ts, i).stats == seq![e.t] + crate::parser::sp_stmts(
            ts,
            j,
        ).stats);
    }
}

proof fn lemma_np_expr(ts: Seq<TokenV>, i: int)
    ensures
        no_refs(crate::parser::sp_expr(ts, i).t),
    decreases ts.len() - i, 3int,
{
    let n = ts.len() as int;
    if 0 <= i < n {
        let l = crate::parser::sp_simple(ts, i);
        let j = crate::parser::adv(i, l.next, n);
        lemma_np_simple(ts, i);
        if j < n && ts[j].token is Assign {
        } else if j < n && crate::parser::is_binop_tok(ts[j].token) {
            let m = crate::parser::sp_simple(ts, j + 1);
            let k = crate::parser::adv(j + 1, m.next, n);
            lemma_np_simple(ts, j + 1);
            lemma_np_binops(ts, k, l.t, ts[j], m.t);
        }
    }
}

proof fn lemma_np_binops(ts: Seq<TokenV>, i: int, left: TreeV, op: TokenV, middle: TreeV)
    requires
        no_refs(left),
        no_refs(middle),
    ensures
        no_refs(crate::parser::sp_binops(ts, i, left, op, middle).t),
    decreases ts.len() - i, 3int,
{
    let n = ts.len() as int;
    if 0 <= i < n && ts[i].token is Assign {
    } else if 0 <= i < n && crate::parser::is_binop_tok(ts[i].token) {
        let op2 = ts[i];
        let m2 = crate::parser::sp_simple(ts, i + 1);
        let k = crate::parser::adv(i + 1, m2.next, n);
        lemma_np_simple(ts, i + 1);
        if crate::parser::binop_prec(op.token) < crate::parser::binop_prec(op2.token) {
            lemma_np_binop_node(op2, middle, m2.t);
            lemma_np_binops(ts, k, left, op, crate::parser::make_binop(op2, middle, m2.t));
        } else {
            lemma_np_binop_node(op, left, middle);
            lemma_np_binops(ts, k, crate::parser::make_binop(op, left, middle), op2, m2.t);
        }
    } else {
        lemma_np_binop_node(op, left, middle);
    }
}

proof fn lemma_np_simple(ts: Seq<TokenV>, i: int)
    ensures
        no_refs(crate::parser::sp_simple(ts, i).t),
    decreases ts.len() - i, 2int,
{
    let n = ts.len() as int;
    if 0 <= i < n {
        if ts[i].token is LeftBrace {
            lemma_np_stmts(ts, i + 1);
            lemma_np_make_block(crate::parser::sp_stmts(ts, i + 1).stats, ts[i].pos);
        } else {
            lemma_np_primary(ts, i);
            lemma_np_calls(
                ts,
                crate::parser::sp_primary(ts, i).t,
                crate::parser::adv(i, crate::parser::sp_primary(ts, i).next, n),
            );
        }
    }
}

proof fn lemma_np_primary(ts: Seq<TokenV>, i: int)
    ensures
        no_refs(crate::parser::sp_primary(ts, i).t),
    decreases ts.len() - i, 1int,
{
    let n = ts.len() as int;
    if 0 <= i < n {
        match ts[i].token {
            TokV::Ident(_) => {
                if i + 1 < n && ts[i + 1].token is Assign {
                    lemma_np_expr(ts, i + 2);
                }
            },
            TokV::LeftPar => {
                lemma_np_group(ts, i);
            },
            TokV::LeftBracket => {
                lemma_np_listlit(ts, i);
            },
            TokV::If => {
                lemma_np_if(ts, i);
            },
            TokV::Let => {
                lemma_np_let(ts, i);
            },
            _ => {},
        }
    }
}

proof fn lemma_np_group(ts: Seq<TokenV>, i: int)
    ensures
        no_refs(crate::parser::sp_group(ts, i).t),
    decreases ts.len() - i, 0int,
{
    let n = ts.len() as int;
    if 0 <= i < n {
        let g = crate::parser::sp_elems(ts, i + 1, false);
        lemma_np_elems(ts, i + 1, false);
        if g.elems.len() == 1 && !g.trailing {
            assert(no_refs(g.elems[0]));
        }
    }
}

proof fn lemma_np_listlit(ts: Seq<TokenV>, i: int)
    ensures
        no_refs(crate::parser::sp_listlit(ts, i).t),
    decreases ts.len() - i, 0int,
{
    let n = ts.len() as int;
    if 0 <= i < n {
        lemma_np_elems(ts, i + 1, true);
    }
}

proof fn lemma_np_if(ts: Seq<TokenV>, i: int)
    ensures
        no_refs(crate::parser::sp_if(ts, i).t),
    decreases ts.len() - i, 0int,
{
    let n = ts.len() as int;
    if 0 <= i < n {
        let c = crate::parser::sp_expr(ts, i + 1);
        let j = crate::parser::adv(i + 1, c.next, n);
        let th = crate::parser::sp_block(ts, j);
        let k = crate::parser::adv(j, th.next, n);
        lemma_np_expr(ts, i + 1);
        lemma_np_block(ts, j);
        if k < n && ts[k].token is Else {
            lemma_np_block(ts, k + 1);
        } else {
            assert(no_refs(TreeV { tree: TreeTypeV::Empty, pos: ts[i].pos }));
        }
    }
}

proof fn lemma_np_let(ts: Seq<TokenV>, i: int)
    ensures
        no_refs(crate::parser::sp_let(ts, i).t),
    decreases ts.len() - i, 0int,
{
    let n = ts.len() as int;
    if 0 <= i < n && i + 1 < n && ts[i + 1].token is Ident && i + 2 < n && ts[i
        + 2].token is Assign {
        lemma_np_expr(ts, i + 3);
    }
}

proof fn lemma_np_calls(ts: Seq<TokenV>, callee: TreeV, i: int)
    requires
        no_refs(callee),
    ensures
        no_refs(crate::parser::sp_calls(ts, callee, i).t),
    decreases ts.len() - i, 1int,
{
    let n = ts.len() as int;
    if 0 < i < n && ts[i].token is LeftPar && ts[i].pos.line == ts[i - 1].pos.line {
        let g = crate::parser::sp_elems(ts, i + 1, false);
        lemma_np_elems(ts, i + 1, false);
        let gt = if g.elems.len() == 1 && !g.trailing {
            g.elems[0]
        } else {
            TreeV { tree: TreeTypeV::Tuple(g.elems), pos: ts[i].pos }
        };
        if g.elems.len() == 1 && !g.trailing {
            assert(no_refs(gt));
        }
        let args = TreeV {
            tree: TreeTypeV::ListLit(crate::parser::call_args(gt)),
            pos: ts[i].pos,
        };
        if g.next < n && ts[g.next].token is RightPar {
            match gt.tree {
                TreeTypeV::Tuple(es) => {
                    assert(none_refs(crate::parser::call_args(gt)));
                },
                _ => {
                    assert(crate::parser::call_args(gt) =~= seq![gt]);
                    lemma_none_refs_cons(gt, Seq::<TreeV>::empty());
                    assert(seq![gt] + Seq::<TreeV>::empty() =~= seq![gt]);
                },
            }
            assert(no_refs(args));
            let t2 = TreeV {
                tree: TreeTypeV::Call(Box::new(callee), Box::new(args)),
                pos: callee.pos,
            };
            assert(no_refs(t2));
            lemma_np_calls(ts, t2, crate::parser::adv(i, g.next + 1, n));
            assert(crate::parser::sp_calls(ts, callee, i) == crate::parser::sp_calls(
                ts,
                t2,
                crate::parser::adv(i, g.next + 1, n),
            ));
        } else {
            assert(no_refs(crate::parser::err_tree("expected ')'"@, ts[i].pos)));
        }
    } else {
        assert(crate::parser::sp_calls(ts, callee, i).t == callee);
    }
}

proof fn lemma_np_elems(ts: Seq<TokenV>, i: int, forlist: bool)
    ensures
        none_refs(crate::parser::sp_elems(ts, i, forlist).elems),
    decreases ts.len() - i, 4int,
{
    let n = ts.len() as int;
    if !(0 <= i < n) || crate::parser::elems_end(ts[i].token, forlist) {
    } else {
        let e = crate::parser::sp_expr(ts, i);
        let j = crate::parser::adv(i, e.next, n);
        lemma_np_expr(ts, i);
        if !(j < n) || crate::parser::elems_end(ts[j].token, forlist) {
            lemma_none_refs_cons(e.t, Seq::<TreeV>::empty());
            assert(seq![e.t] + Seq::<TreeV>::empty() =~= seq![e.t]);
        } else if ts[j].token is Comma {
            if !(j + 1 < n) || crate::parser::elems_end(ts[j + 1].token, forlist) {
                lemma_none_refs_cons(e.t, Seq::<TreeV>::empty());
                assert(seq![e.t] + Seq::<TreeV>::empty() =~= seq![e.t]);
            } else {
                lemma_np_elems(ts, j + 1, forlist);
                lemma_none_refs_cons(e.t, crate::parser::sp_elems(ts, j + 1, forlist).elems);
            }
        } else {
            let err = crate::parser::err_tree("expected ',', ')' or '}'"@, ts[j].pos);
            lemma_none_refs_cons(err, Seq::<TreeV>::empty());
            assert(seq![err] + Seq::<TreeV>::empty() =~= seq![err]);
            lemma_none_refs_cons(e.t, seq![err]);
            assert(seq![e.t] + seq![err] =~= seq![e.t, err]);
        }
    }
}

/// A parsed tree carries no resolved node: resolution starts from raw
/// names only.
pub proof fn lemma_parse_no_refs(ts: Seq<TokenV>)
    ensures
        no_refs(crate::parser::sp_parse(ts)),
{
    let n = ts.len() as int;
    let b = crate::parser::sp_block(ts, 0);
    lemma_np_block(ts, 0);
    if !(b.t.tree is Error) && b.next < n {
        let err = crate::parser::err_tree("expected EOF"@, ts[b.next].pos);
        lemma_none_refs_cons(err, Seq::<TreeV>::empty());
        assert(seq![err] + Seq::<TreeV>::empty() =~= seq![err]);
        lemma_none_refs_cons(b.t, seq![err]);
        assert(seq![b.t] + seq![err] =~= seq![b.t, err]);
    }
}

/// Resolution totality over the whole front end: whatever the source,
/// a parsed tree that name analysis accepts contains no unresolved
/// identifier, assignment, declaration, for or function node.
pub proof fn lemma_parsed_resolution_total(ts: Seq<TokenV>, c: CtxV)
    ensures
        sp_resolve(crate::parser::sp_parse(ts), c) matches Ok(p) ==> is_resolved(p.0),
{
    lemma_parse_no_refs(ts);
    lemma_resolution_total(crate::parser::sp_parse(ts), c);
}

} // verus!
