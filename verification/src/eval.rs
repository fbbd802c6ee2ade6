//! The tree-walking evaluator. Variables are addressed by resolved
//! symbol id into one flat, growable value store shared by the whole
//! run; calls reuse that store rather than opening a frame, so
//! recursive calls that share a parameter's id alias one slot. An
//! explicit fuel bounds call depth and loop iterations, surfacing
//! runaway recursion as an error instead of exhausting the host stack.

use vstd::prelude::*;

use std::rc::Rc;

use crate::symbol::{SymV, SymbolRef};
use crate::tree::{view_tree, view_trees, Tree, TreeType, TreeTypeV, TreeV};
use crate::utils::{with_pos_spec, ErrKindV, ErrV, Error, ErrorKind};
use crate::value::{
    clone_syms,
    rc_clone_tree,
    sp_add,
    sp_div,
    sp_mul,
    sp_sub,
    sp_to_bool,
    sp_value_eq,
    view_value,
    view_values,
    Value,
    ValueV,
};

verus! {

/// The flat, id-indexed value store: slot `i` belongs to the symbol
/// with id `i`; reads and writes beyond the current length extend it
/// with `Unit`.
#[derive(Debug)]
pub struct Env {
    pub values: Vec<Value>,
}

impl View for Env {
    type V = Seq<ValueV>;

    open spec fn view(&self) -> Seq<ValueV> {
        view_values(self.values@)
    }
}

/// Reading slot `id`: `Unit` where nothing was ever written.
pub open spec fn sp_read(env: Seq<ValueV>, id: nat) -> ValueV {
    if id < env.len() {
        env[id as int]
    } else {
        ValueV::Unit
    }
}

/// `n` unit values, the padding for writes beyond the store's length.
pub open spec fn units(n: nat) -> Seq<ValueV> {
    Seq::new(n, |j: int| ValueV::Unit)
}

/// Writing slot `id`, extending the store with `Unit` as needed.
pub open spec fn sp_write(env: Seq<ValueV>, id: nat, v: ValueV) -> Seq<ValueV> {
    if id < env.len() {
        env.update(id as int, v)
    } else {
        env + units((id - env.len()) as nat) + seq![v]
    }
}

/// Writing each parameter's slot with the matching argument, in order.
pub open spec fn sp_write_args(env: Seq<ValueV>, ps: Seq<SymV>, vals: Seq<ValueV>) -> Seq<ValueV>
    decreases ps.len(),
{
    if ps.len() == 0 || vals.len() == 0 {
        env
    } else {
        sp_write_args(sp_write(env, ps[0].id, vals[0]), ps.drop_first(), vals.drop_first())
    }
}

/// The outcome of evaluating one tree: a value or a positioned error,
/// together with the store it leaves behind.
pub struct EvOut {
    pub res: Result<ValueV, ErrV>,
    pub env: Seq<ValueV>,
}

pub open spec fn ev_ok(v: ValueV, env: Seq<ValueV>) -> EvOut {
    EvOut { res: Ok(v), env }
}

pub open spec fn ev_err(k: ErrKindV, p: crate::position::PosV, env: Seq<ValueV>) -> EvOut {
    EvOut { res: Err(with_pos_spec(k, p)), env }
}

/// The semantics of the language, one tree at a time. `fuel` bounds
/// the depth of calls and the number of loop iterations; exhausting it
/// is an error, never an unsound answer.
pub open spec fn sp_eval(t: TreeV, env: Seq<ValueV>, fuel: nat) -> EvOut
    decreases fuel, t, 1int, 0int,
{
    match t.tree {
        TreeTypeV::Empty => ev_ok(ValueV::Unit, env),
        TreeTypeV::IntLit(n) => ev_ok(ValueV::Num(n), env),
        TreeTypeV::StrLit(s) => ev_ok(ValueV::Str(s), env),
        TreeTypeV::IdentRef(sym) => ev_ok(sp_read(env, sym.id), env),
        TreeTypeV::DefRef(sym, rhs) => {
            let o = sp_eval(*rhs, env, fuel);
            match o.res {
                Ok(v) => ev_ok(ValueV::Unit, sp_write(o.env, sym.id, v)),
                Err(e) => o,
            }
        },
        TreeTypeV::AssignRef(sym, rhs) => {
            let o = sp_eval(*rhs, env, fuel);
            match o.res {
                Ok(v) => ev_ok(v, sp_write(o.env, sym.id, v)),
                Err(e) => o,
            }
        },
        TreeTypeV::FuncRef(ps, b) => ev_ok(ValueV::Func(ps, b), env),
        TreeTypeV::Add(l, r) => sp_eval_binop(t, *l, *r, env, fuel),
        TreeTypeV::Sub(l, r) => sp_eval_binop(t, *l, *r, env, fuel),
        TreeTypeV::Mul(l, r) => sp_eval_binop(t, *l, *r, env, fuel),
        TreeTypeV::Div(l, r) => sp_eval_binop(t, *l, *r, env, fuel),
        TreeTypeV::Eq(l, r) => sp_eval_binop(t, *l, *r, env, fuel),
        TreeTypeV::Neq(l, r) => sp_eval_binop(t, *l, *r, env, fuel),
        TreeTypeV::ListLit(v) => {
            let o = sp_eval_seq(v, env, fuel);
            match o.0 {
                Ok(vs) => ev_ok(ValueV::List(vs), o.1),
                Err(e) => EvOut { res: Err(e), env: o.1 },
            }
        },
        TreeTypeV::Tuple(v) => {
            let o = sp_eval_seq(v, env, fuel);
            match o.0 {
                Ok(vs) => ev_ok(ValueV::List(vs), o.1),
                Err(e) => EvOut { res: Err(e), env: o.1 },
            }
        },
        TreeTypeV::Block(v) => {
            let o = sp_eval_seq(v, env, fuel);
            match o.0 {
                Ok(vs) => if vs.len() == 0 {
                    ev_ok(ValueV::Unit, o.1)
                } else {
                    ev_ok(vs.last(), o.1)
                },
                Err(e) => EvOut { res: Err(e), env: o.1 },
            }
        },
        TreeTypeV::If(c, th, el) => {
            let o = sp_eval(*c, env, fuel);
            match o.res {
                Ok(cv) => match sp_to_bool(cv) {
                    Some(b) => if b {
                        sp_eval(*th, o.env, fuel)
                    } else {
                        sp_eval(*el, o.env, fuel)
                    },
                    None => ev_err(ErrKindV::Generic("value is not a bool"@), t.pos, o.env),
                },
                Err(e) => o,
            }
        },
        TreeTypeV::While(c, b) => {
            let o = sp_eval(*c, env, fuel);
            match o.res {
                Ok(cv) => match sp_to_bool(cv) {
                    Some(cond) => if !cond {
                        ev_ok(ValueV::Unit, o.env)
                    } else {
                        let o2 = sp_eval(*b, o.env, fuel);
                        match o2.res {
                            Ok(_) => if fuel == 0 {
                                ev_err(
                                    ErrKindV::Generic("evaluation depth exceeded"@),
                                    t.pos,
                                    o2.env,
                                )
                            } else {
                                sp_eval(t, o2.env, (fuel - 1) as nat)
                            },
                            Err(e) => o2,
                        }
                    },
                    None => ev_err(ErrKindV::Generic("value is not a bool"@), t.pos, o.env),
                },
                Err(e) => o,
            }
        },
        TreeTypeV::ForRef(sym, coll, body) => {
            let o = sp_eval(*coll, env, fuel);
            match o.res {
                Ok(cv) => match cv {
                    ValueV::List(elems) => sp_eval_for(*body, sym, elems, o.env, fuel),
                    _ => ev_err(ErrKindV::Generic("value is not a list"@), t.pos, o.env),
                },
                Err(e) => o,
            }
        },
        TreeTypeV::Call(f, a) => {
            let o = sp_eval(*f, env, fuel);
            match o.res {
                Ok(fv) => {
                    let o2 = sp_eval(*a, o.env, fuel);
                    match o2.res {
                        Ok(av) => match (fv, av) {
                            (ValueV::Func(ps, body), ValueV::List(vals)) => {
                                if ps.len() != vals.len() {
                                    ev_err(
                                        ErrKindV::WrongArgCount(ps.len(), vals.len()),
                                        t.pos,
                                        o2.env,
                                    )
                                } else if fuel == 0 {
                                    ev_err(
                                        ErrKindV::Generic("evaluation depth exceeded"@),
                                        t.pos,
                                        o2.env,
                                    )
                                } else {
                                    sp_eval(
                                        *body,
                                        sp_write_args(o2.env, ps, vals),
                                        (fuel - 1) as nat,
                                    )
                                }
                            },
                            (ValueV::Func(ps, body), _) => ev_err(
                                ErrKindV::Generic("malformed call"@),
                                t.pos,
                                o2.env,
                            ),
                            _ => ev_err(
                                ErrKindV::Generic("value is not a function"@),
                                t.pos,
                                o2.env,
                            ),
                        },
                        Err(e) => o2,
                    }
                },
                Err(e) => o,
            }
        },
        TreeTypeV::Def(_, _) => ev_err(ErrKindV::Generic("unresolved name"@), t.pos, env),
        TreeTypeV::Assign(_, _) => ev_err(ErrKindV::Generic("unresolved name"@), t.pos, env),
        TreeTypeV::Ident(_) => ev_err(ErrKindV::Generic("unresolved name"@), t.pos, env),
        TreeTypeV::For(_, _, _) => ev_err(ErrKindV::Generic("unresolved name"@), t.pos, env),
        TreeTypeV::Func(_, _) => ev_err(ErrKindV::Generic("unresolved name"@), t.pos, env),
        TreeTypeV::Error(m) => ev_err(ErrKindV::Generic(m), t.pos, env),
    }
}

/// Left operand first, then right, then the operator's rule.
pub open spec fn sp_eval_binop(t: TreeV, l: TreeV, r: TreeV, env: Seq<ValueV>, fuel: nat) -> EvOut
    decreases fuel, t, 0int, 0int,
    when (decreases_to!(t => l)) && (decreases_to!(t => r))
{
    let o = sp_eval(l, env, fuel);
    match o.res {
        Ok(lv) => {
            let o2 = sp_eval(r, o.env, fuel);
            match o2.res {
                Ok(rv) => {
                    let res = match t.tree {
                        TreeTypeV::Add(_, _) => sp_add(lv, rv),
                        TreeTypeV::Sub(_, _) => sp_sub(lv, rv),
                        TreeTypeV::Mul(_, _) => sp_mul(lv, rv),
                        TreeTypeV::Div(_, _) => sp_div(lv, rv),
                        TreeTypeV::Eq(_, _) => Ok(
                            ValueV::Num(
                                if sp_value_eq(lv, rv) {
                                    1
                                } else {
                                    0
                                },
                            ),
                        ),
                        _ => Ok(
                            ValueV::Num(
                                if sp_value_eq(lv, rv) {
                                    0
                                } else {
                                    1
                                },
                            ),
                        ),
                    };
                    match res {
                        Ok(v) => ev_ok(v, o2.env),
                        Err(k) => ev_err(k, t.pos, o2.env),
                    }
                },
                Err(e) => o2,
            }
        },
        Err(e) => o,
    }
}

/// Elements in order; the first error stops the walk.
pub open spec fn sp_eval_seq(ts: Seq<TreeV>, env: Seq<ValueV>, fuel: nat) -> (
    Result<Seq<ValueV>, ErrV>,
    Seq<ValueV>,
)
    decreases fuel, ts, 0int, 0int,
{
    if ts.len() == 0 {
        (Ok(Seq::<ValueV>::empty()), env)
    } else {
        let o = sp_eval(ts[0], env, fuel);
        match o.res {
            Ok(v) => {
                let rest = sp_eval_seq(ts.drop_first(), o.env, fuel);
                match rest.0 {
                    Ok(vs) => (Ok(seq![v] + vs), rest.1),
                    Err(e) => (Err(e), rest.1),
                }
            },
            Err(e) => (Err(e), o.env),
        }
    }
}

/// One loop-variable write and one body run per element.
pub open spec fn sp_eval_for(
    body: TreeV,
    sym: SymV,
    elems: Seq<ValueV>,
    env: Seq<ValueV>,
    fuel: nat,
) -> EvOut
    decreases fuel, body, 1int, elems.len(),
{
    if elems.len() == 0 {
        ev_ok(ValueV::Unit, env)
    } else {
        let o = sp_eval(body, sp_write(env, sym.id, elems[0]), fuel);
        match o.res {
            Ok(_) => sp_eval_for(body, sym, elems.drop_first(), o.env, fuel),
            Err(e) => o,
        }
    }
}

impl Env {
    /// An empty store.
    pub fn new() -> (r: Env)
        ensures
            r@ == Seq::<ValueV>::empty(),
    {
        let r = Env { values: Vec::new() };
        proof {
            assert(r@ =~= Seq::<ValueV>::empty());
        }
        r
    }

    /// The value in slot `id`; `Unit` where nothing was written.
    pub fn get(&self, id: usize) -> (r: Value)
        ensures
            r@ == sp_read(self@, id as nat),
    {
        if id < self.values.len() {
            self.values[id].clone()
        } else {
            Value::Unit
        }
    }

    /// Writes slot `id`, extending the store with `Unit` as needed.
    pub fn set(&mut self, id: usize, v: Value)
        ensures
            final(self)@ == sp_write(old(self)@, id as nat, v@),
    {
        if id < self.values.len() {
            let ghost pre = self@;
            self.values[id] = v;
            proof {
                assert(self@ =~= pre.update(id as int, view_value(v)));
            }
        } else {
            let ghost pre = self@;
            proof {
                assert(self@ =~= pre + units((self.values@.len() - pre.len()) as nat));
            }
            while self.values.len() < id
                invariant
                    self.values@.len() <= id,
                    pre.len() <= self.values@.len(),
                    self@ == pre + units((self.values@.len() - pre.len()) as nat),
                decreases id - self.values@.len(),
            {
                let ghost ob = self.values@;
                self.values.push(Value::Unit);
                proof {
                    let nv = self.values@;
                    assert forall|k: int|
                        0 <= k < nv.len() implies #[trigger] view_values(nv)[k] == (pre + units(
                        (nv.len() - pre.len()) as nat,
                    ))[k] by {
                        if k < ob.len() {
                            assert(view_values(nv)[k] == view_value(ob[k]));
                            assert(view_values(ob)[k] == view_value(ob[k]));
                            assert(view_values(ob)[k] == (pre + units(
                                (ob.len() - pre.len()) as nat,
                            ))[k]);
                        } else {
                            assert(view_values(nv)[k] == view_value(Value::Unit));
                        }
                    }
                    assert(self@ =~= pre + units((self.values@.len() - pre.len()) as nat));
                }
            }
            let ghost ob = self.values@;
            let ghost vv = view_value(v);
            self.values.push(v);
            proof {
                let nv = self.values@;
                let target = sp_write(pre, id as nat, vv);
                assert(target == pre + units((id - pre.len()) as nat) + seq![vv]);
                assert(ob.len() == id);
                assert forall|k: int|
                    0 <= k < nv.len() implies #[trigger] view_values(nv)[k] == target[k] by {
                    if k < ob.len() {
                        assert(view_values(nv)[k] == view_value(ob[k]));
                        assert(view_values(ob)[k] == view_value(ob[k]));
                        assert(view_values(ob)[k] == (pre + units(
                            (ob.len() - pre.len()) as nat,
                        ))[k]);
                    } else {
                        assert(view_values(nv)[k] == vv);
                    }
                }
                assert(self@ =~= sp_write(pre, id as nat, vv));
            }
        }
    }
}

/// Evaluates a resolved tree against the store, with at most `fuel`
/// nested calls or loop iterations.
#[verifier::rlimit(100)]
pub fn eval(tree: &Tree, env: &mut Env, fuel: u64) -> (r: Result<Value, Error>)
    ensures
        final(env)@ == sp_eval(tree@, old(env)@, fuel as nat).env,
        match r {
            Ok(v) => sp_eval(tree@, old(env)@, fuel as nat).res == Ok::<ValueV, ErrV>(v@),
            Err(e) => sp_eval(tree@, old(env)@, fuel as nat).res == Err::<ValueV, ErrV>(e@),
        },
    decreases fuel, *tree, 1int, 0int,
{
    let ghost goal = sp_eval(tree@, old(env)@, fuel as nat);
    match &tree.tree {
        TreeType::Empty => Ok(Value::Unit),
        TreeType::IntLit(n) => Ok(Value::Num(*n)),
        TreeType::StrLit(s) => Ok(Value::Str(s.clone())),
        TreeType::IdentRef(sym) => Ok(env.get(sym.id())),
        TreeType::DefRef(sym, rhs) => {
            match eval(rhs, env, fuel) {
                Ok(v) => {
                    env.set(sym.id(), v);
                    Ok(Value::Unit)
                },
                Err(e) => Err(e),
            }
        },
        TreeType::AssignRef(sym, rhs) => {
            match eval(rhs, env, fuel) {
                Ok(v) => {
                    env.set(sym.id(), v.clone());
                    Ok(v)
                },
                Err(e) => Err(e),
            }
        },
        TreeType::FuncRef(ps, b) => Ok(Value::Func(clone_syms(ps), Rc::new((**b).clone()))),
        TreeType::Add(l, r) => eval_binop(tree, l, r, env, fuel),
        TreeType::Sub(l, r) => eval_binop(tree, l, r, env, fuel),
        TreeType::Mul(l, r) => eval_binop(tree, l, r, env, fuel),
        TreeType::Div(l, r) => eval_binop(tree, l, r, env, fuel),
        TreeType::Eq(l, r) => eval_binop(tree, l, r, env, fuel),
        TreeType::Neq(l, r) => eval_binop(tree, l, r, env, fuel),
        TreeType::ListLit(v) => {
            proof {
                assert(view_trees(v@).skip(0) =~= view_trees(v@));
            }
            match eval_list(v, 0, env, fuel) {
                Ok(vs) => Ok(Value::List(vs)),
                Err(e) => Err(e),
            }
        },
        TreeType::Tuple(v) => {
            proof {
                assert(view_trees(v@).skip(0) =~= view_trees(v@));
            }
            match eval_list(v, 0, env, fuel) {
                Ok(vs) => Ok(Value::List(vs)),
                Err(e) => Err(e),
            }
        },
        TreeType::Block(v) => {
            proof {
                assert(view_trees(v@).skip(0) =~= view_trees(v@));
            }
            match eval_list(v, 0, env, fuel) {
                Ok(mut vs) => {
                    if vs.len() == 0 {
                        Ok(Value::Unit)
                    } else {
                        let ghost vsv = view_values(vs@);
                        let last = vs.pop().unwrap();
                        proof {
                            assert(vsv.last() == last@);
                        }
                        Ok(last)
                    }
                },
                Err(e) => Err(e),
            }
        },
        TreeType::If(c, th, el) => {
            match eval(c, env, fuel) {
                Ok(cv) => match cv.to_bool() {
                    Some(b) => if b {
                        eval(th, env, fuel)
                    } else {
                        eval(el, env, fuel)
                    },
                    None => Err(
                        ErrorKind::Generic("value is not a bool".to_owned()).with_position(
                            &tree.pos,
                        ),
                    ),
                },
                Err(e) => Err(e),
            }
        },
        TreeType::While(c, b) => {
            match eval(c, env, fuel) {
                Ok(cv) => match cv.to_bool() {
                    Some(cond) => if !cond {
                        Ok(Value::Unit)
                    } else {
                        match eval(b, env, fuel) {
                            Ok(_) => {
                                if fuel == 0 {
                                    Err(
                                        ErrorKind::Generic(
                                            "evaluation depth exceeded".to_owned(),
                                        ).with_position(&tree.pos),
                                    )
                                } else {
                                    eval(tree, env, fuel - 1)
                                }
                            },
                            Err(e) => Err(e),
                        }
                    },
                    None => Err(
                        ErrorKind::Generic("value is not a bool".to_owned()).with_position(
                            &tree.pos,
                        ),
                    ),
                },
                Err(e) => Err(e),
            }
        },
        TreeType::ForRef(sym, coll, body) => {
            match eval(coll, env, fuel) {
                Ok(cv) => match cv.to_list() {
                    Some(elems) => {
                        proof {
                            assert(view_values(elems@).skip(0) =~= view_values(elems@));
                        }
                        eval_for(body, sym, &elems, 0, env, fuel)
                    },
                    None => Err(
                        ErrorKind::Generic("value is not a list".to_owned()).with_position(
                            &tree.pos,
                        ),
                    ),
                },
                Err(e) => Err(e),
            }
        },
        TreeType::Call(f, a) => {
            match eval(f, env, fuel) {
                Ok(fv) => match eval(a, env, fuel) {
                    Ok(av) => match (fv, av) {
                        (Value::Func(ps, body), Value::List(vals)) => {
                            if ps.len() != vals.len() {
                                Err(
                                    ErrorKind::WrongArgCount(ps.len(), vals.len()).with_position(
                                        &tree.pos,
                                    ),
                                )
                            } else if fuel == 0 {
                                Err(
                                    ErrorKind::Generic(
                                        "evaluation depth exceeded".to_owned(),
                                    ).with_position(&tree.pos),
                                )
                            } else {
                                proof {
                                    assert(crate::tree::syms_view(ps@).skip(0)
                                        =~= crate::tree::syms_view(ps@));
                                    assert(view_values(vals@).skip(0) =~= view_values(vals@));
                                }
                                write_args(env, &ps, &vals, 0);
                                eval(&body, env, fuel - 1)
                            }
                        },
                        (Value::Func(_, _), _) => Err(
                            ErrorKind::Generic("malformed call".to_owned()).with_position(
                                &tree.pos,
                            ),
                        ),
                        _ => Err(
                            ErrorKind::Generic("value is not a function".to_owned()).with_position(
                                &tree.pos,
                            ),
                        ),
                    },
                    Err(e) => Err(e),
                },
                Err(e) => Err(e),
            }
        },
        TreeType::Def(_, _) => Err(
            ErrorKind::Generic("unresolved name".to_owned()).with_position(&tree.pos),
        ),
        TreeType::Assign(_, _) => Err(
            ErrorKind::Generic("unresolved name".to_owned()).with_position(&tree.pos),
        ),
        TreeType::Ident(_) => Err(
            ErrorKind::Generic("unresolved name".to_owned()).with_position(&tree.pos),
        ),
        TreeType::For(_, _, _) => Err(
            ErrorKind::Generic("unresolved name".to_owned()).with_position(&tree.pos),
        ),
        TreeType::Func(_, _) => Err(
            ErrorKind::Generic("unresolved name".to_owned()).with_position(&tree.pos),
        ),
        TreeType::Error(m) => Err(
            ErrorKind::Generic(m.clone()).with_position(&tree.pos),
        ),
    }
}

fn eval_binop(tree: &Tree, l: &Tree, r: &Tree, env: &mut Env, fuel: u64) -> (res: Result<
    Value,
    Error,
>)
    requires
        tree@.tree matches TreeTypeV::Add(bl, br) || tree@.tree matches TreeTypeV::Sub(bl, br)
            || tree@.tree matches TreeTypeV::Mul(bl, br) || tree@.tree matches TreeTypeV::Div(
            bl,
            br,
        ) || tree@.tree matches TreeTypeV::Eq(bl, br) || tree@.tree matches TreeTypeV::Neq(bl, br),
        decreases_to!(*tree => *l),
        decreases_to!(*tree => *r),
        match tree@.tree {
            TreeTypeV::Add(bl, br) => *bl == l@ && *br == r@,
            TreeTypeV::Sub(bl, br) => *bl == l@ && *br == r@,
            TreeTypeV::Mul(bl, br) => *bl == l@ && *br == r@,
            TreeTypeV::Div(bl, br) => *bl == l@ && *br == r@,
            TreeTypeV::Eq(bl, br) => *bl == l@ && *br == r@,
            TreeTypeV::Neq(bl, br) => *bl == l@ && *br == r@,
            _ => false,
        },
    ensures
        final(env)@ == sp_eval_binop(tree@, l@, r@, old(env)@, fuel as nat).env,
        match res {
            Ok(v) => sp_eval_binop(tree@, l@, r@, old(env)@, fuel as nat).res == Ok::<
                ValueV,
                ErrV,
            >(v@),
            Err(e) => sp_eval_binop(tree@, l@, r@, old(env)@, fuel as nat).res == Err::<
                ValueV,
                ErrV,
            >(e@),
        },
    decreases fuel, *tree, 0int, 0int,
{
    match eval(l, env, fuel) {
        Ok(lv) => {
            match eval(r, env, fuel) {
                Ok(rv) => {
                    let op_res: Result<Value, ErrorKind> = match &tree.tree {
                        TreeType::Add(_, _) => lv.add(rv),
                        TreeType::Sub(_, _) => lv.sub(rv),
                        TreeType::Mul(_, _) => lv.mul(rv),
                        TreeType::Div(_, _) => lv.div(rv),
                        TreeType::Eq(_, _) => Ok(
                            Value::Num(
                                if lv.value_eq(&rv) {
                                    1
                                } else {
                                    0
                                },
                            ),
                        ),
                        _ => Ok(
                            Value::Num(
                                if lv.value_eq(&rv) {
                                    0
                                } else {
                                    1
                                },
                            ),
                        ),
                    };
                    match op_res {
                        Ok(v) => Ok(v),
                        Err(k) => Err(k.with_position(&tree.pos)),
                    }
                },
                Err(e) => Err(e),
            }
        },
        Err(e) => Err(e),
    }
}

fn eval_list(ts: &Vec<Tree>, i: usize, env: &mut Env, fuel: u64) -> (r: Result<Vec<Value>, Error>)
    requires
        i <= ts@.len(),
    ensures
        final(env)@ == sp_eval_seq(view_trees(ts@).skip(i as int), old(env)@, fuel as nat).1,
        match r {
            Ok(vs) => sp_eval_seq(view_trees(ts@).skip(i as int), old(env)@, fuel as nat).0 == Ok::<
                Seq<ValueV>,
                ErrV,
            >(view_values(vs@)),
            Err(e) => sp_eval_seq(view_trees(ts@).skip(i as int), old(env)@, fuel as nat).0
                == Err::<Seq<ValueV>, ErrV>(e@),
        },
    decreases fuel, *ts, 0int, ts@.len() - i,
{
    let ghost whole = view_trees(ts@).skip(i as int);
    if i >= ts.len() {
        let empty: Vec<Value> = Vec::new();
        proof {
            assert(whole =~= Seq::<TreeV>::empty());
            assert(view_values(empty@) =~= Seq::<ValueV>::empty());
        }
        return Ok(empty);
    }
    proof {
        assert(whole[0] == view_trees(ts@)[i as int]);
        assert(whole.drop_first() =~= view_trees(ts@).skip(i as int + 1));
    }
    match eval(&ts[i], env, fuel) {
        Ok(v) => {
            match eval_list(ts, i + 1, env, fuel) {
                Ok(mut vs) => {
                    let ghost vv = view_value(v);
                    let ghost oldvs = vs@;
                    vs.insert(0, v);
                    proof {
                        assert(view_values(vs@) =~= seq![vv] + view_values(oldvs));
                    }
                    Ok(vs)
                },
                Err(e) => Err(e),
            }
        },
        Err(e) => Err(e),
    }
}

fn eval_for(
    body: &Tree,
    sym: &SymbolRef,
    elems: &Vec<Value>,
    i: usize,
    env: &mut Env,
    fuel: u64,
) -> (r: Result<Value, Error>)
    requires
        i <= elems@.len(),
    ensures
        final(env)@ == sp_eval_for(
            body@,
            sym@,
            view_values(elems@).skip(i as int),
            old(env)@,
            fuel as nat,
        ).env,
        match r {
            Ok(v) => sp_eval_for(
                body@,
                sym@,
                view_values(elems@).skip(i as int),
                old(env)@,
                fuel as nat,
            ).res == Ok::<ValueV, ErrV>(v@),
            Err(e) => sp_eval_for(
                body@,
                sym@,
                view_values(elems@).skip(i as int),
                old(env)@,
                fuel as nat,
            ).res == Err::<ValueV, ErrV>(e@),
        },
    decreases fuel, *body, 1int, elems@.len() - i,
{
    let ghost whole = view_values(elems@).skip(i as int);
    if i >= elems.len() {
        proof {
            assert(whole =~= Seq::<ValueV>::empty());
        }
        return Ok(Value::Unit);
    }
    proof {
        assert(whole[0] == view_values(elems@)[i as int]);
        assert(whole.drop_first() =~= view_values(elems@).skip(i as int + 1));
    }
    env.set(sym.id(), elems[i].clone());
    match eval(body, env, fuel) {
        Ok(_) => eval_for(body, sym, elems, i + 1, env, fuel),
        Err(e) => Err(e),
    }
}

fn write_args(env: &mut Env, ps: &Vec<SymbolRef>, vals: &Vec<Value>, i: usize)
    requires
        i <= ps@.len(),
        ps@.len() == vals@.len(),
    ensures
        final(env)@ == sp_write_args(
            old(env)@,
            crate::tree::syms_view(ps@).skip(i as int),
            view_values(vals@).skip(i as int),
        ),
    decreases ps@.len() - i,
{
    let ghost sv = crate::tree::syms_view(ps@).skip(i as int);
    let ghost vv = view_values(vals@).skip(i as int);
    if i >= ps.len() {
        proof {
            assert(sv =~= Seq::<SymV>::empty());
        }
        return ;
    }
    proof {
        assert(sv[0] == crate::tree::syms_view(ps@)[i as int]);
        assert(vv[0] == view_values(vals@)[i as int]);
        assert(sv.drop_first() =~= crate::tree::syms_view(ps@).skip(i as int + 1));
        assert(vv.drop_first() =~= view_values(vals@).skip(i as int + 1));
    }
    env.set(ps[i].id(), vals[i].clone());
    write_args(env, ps, vals, i + 1);
}

} // verus!
