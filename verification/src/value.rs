//! Run-time values: the dynamically tagged results of evaluation.
//! Copies never mutate their source; a function value shares its body.

use vstd::prelude::*;

use std::rc::Rc;

use crate::numtext::{parse_int, sp_parse_int};
use crate::printer::{dec_int, push_i64};
use crate::symbol::{SymV, SymbolRef};
use crate::text::string_of;
use crate::tree::{syms_view, view_tree, Tree, TreeV};
use crate::utils::{append_str, ErrKindV, ErrorKind};

verus! {

/// Mathematical model of a value.
pub enum ValueV {
    Unit,
    Num(i64),
    Str(Seq<char>),
    List(Seq<ValueV>),
    Func(Seq<SymV>, Box<TreeV>),
}

/// A run-time value: unit, number, text, list, or a function pairing its
/// parameter symbols with a shared body tree.
#[derive(Debug)]
pub enum Value {
    Unit,
    Num(i64),
    Str(String),
    List(Vec<Value>),
    Func(Vec<SymbolRef>, Rc<Tree>),
}

pub open spec fn view_values(v: Seq<Value>) -> Seq<ValueV>
    decreases v,
{
    Seq::new(
        v.len(),
        |i: int|
            if 0 <= i < v.len() {
                view_value(v[i])
            } else {
                ValueV::Unit
            },
    )
}

pub open spec fn view_value(v: Value) -> ValueV
    decreases v,
{
    match v {
        Value::Unit => ValueV::Unit,
        Value::Num(n) => ValueV::Num(n),
        Value::Str(s) => ValueV::Str(s@),
        Value::List(l) => ValueV::List(view_values(l@)),
        Value::Func(ps, b) => ValueV::Func(syms_view(ps@), Box::new(view_tree(*b))),
    }
}

impl View for Value {
    type V = ValueV;

    open spec fn view(&self) -> ValueV {
        view_value(*self)
    }
}

/// Relies on `Rc::clone`: returns a handle to the same tree.
#[verifier::external_body]
pub(crate) fn rc_clone_tree(rc: &Rc<Tree>) -> (r: Rc<Tree>)
    ensures
        r == *rc,
{
    rc.clone()
}

impl Clone for Value {
    /// A copy structurally equal to the original; lists are copied
    /// element by element, a function body stays shared.
    fn clone(&self) -> (r: Self)
        ensures
            r@ == self@,
        decreases *self,
    {
        match self {
            Value::Unit => Value::Unit,
            Value::Num(n) => Value::Num(*n),
            Value::Str(s) => Value::Str(s.clone()),
            Value::List(l) => Value::List(clone_values(l)),
            Value::Func(ps, b) => Value::Func(clone_syms(ps), rc_clone_tree(b)),
        }
    }
}

fn clone_values(l: &Vec<Value>) -> (r: Vec<Value>)
    ensures
        view_values(r@) == view_values(l@),
    decreases *l,
{
    let mut r: Vec<Value> = Vec::new();
    let mut i: usize = 0;
    while i < l.len()
        invariant
            i <= l.len(),
            r@.len() == i,
            forall|k: int| 0 <= k < i ==> view_value(#[trigger] r@[k]) == view_value(l@[k]),
        decreases l.len() - i,
    {
        r.push(l[i].clone());
        i = i + 1;
    }
    proof {
        assert(view_values(r@) =~= view_values(l@));
    }
    r
}

pub(crate) fn clone_syms(ps: &Vec<SymbolRef>) -> (r: Vec<SymbolRef>)
    ensures
        syms_view(r@) == syms_view(ps@),
{
    let mut r: Vec<SymbolRef> = Vec::new();
    let mut i: usize = 0;
    while i < ps.len()
        invariant
            i <= ps.len(),
            r@.len() == i,
            forall|k: int| 0 <= k < i ==> (#[trigger] r@[k])@ == ps@[k]@,
        decreases ps.len() - i,
    {
        r.push(ps[i].clone());
        i = i + 1;
    }
    proof {
        assert(syms_view(r@) =~= syms_view(ps@));
    }
    r
}

/// The number a value stands for: its own for a number, the parsed text
/// for a string, nothing otherwise.
pub open spec fn sp_try_num(v: ValueV) -> Option<i64> {
    match v {
        ValueV::Num(n) => Some(n),
        ValueV::Str(s) => sp_parse_int(s),
        _ => None,
    }
}

/// Truthiness: a value is a boolean only through its number; nonzero
/// means true.
pub open spec fn sp_to_bool(v: ValueV) -> Option<bool> {
    match sp_try_num(v) {
        Some(n) => Some(n != 0),
        None => None,
    }
}

/// The textual rendering of a value, used by string concatenation.
pub open spec fn str_of(v: ValueV) -> Seq<char>
    decreases v,
{
    match v {
        ValueV::Unit => "Unit"@,
        ValueV::Num(n) => dec_int(n as int),
        ValueV::Str(s) => s,
        ValueV::List(l) => "["@ + str_of_list(l) + "]"@,
        ValueV::Func(_, _) => "function"@,
    }
}

pub open spec fn str_of_list(l: Seq<ValueV>) -> Seq<char>
    decreases l,
{
    if l.len() == 0 {
        Seq::<char>::empty()
    } else if l.len() == 1 {
        str_of(l[0])
    } else {
        str_of_list(l.drop_last()) + ", "@ + str_of(l.last())
    }
}

/// Structural equality of values. Two function values never compare
/// equal: a closure has no useful identity.
pub open spec fn sp_value_eq(a: ValueV, b: ValueV) -> bool
    decreases a,
{
    match (a, b) {
        (ValueV::Unit, ValueV::Unit) => true,
        (ValueV::Num(x), ValueV::Num(y)) => x == y,
        (ValueV::Str(x), ValueV::Str(y)) => x == y,
        (ValueV::List(x), ValueV::List(y)) => sp_lists_eq(x, y),
        _ => false,
    }
}

pub open spec fn sp_lists_eq(x: Seq<ValueV>, y: Seq<ValueV>) -> bool
    decreases x,
{
    if x.len() != y.len() {
        false
    } else if x.len() == 0 {
        true
    } else {
        sp_value_eq(x[0], y[0]) && sp_lists_eq(x.drop_first(), y.drop_first())
    }
}

/// What `Value::add` returns. A string concatenates the stringified
/// right operand; a number adds the right operand's number (wrapping);
/// a list appends the right operand's elements, or the operand itself.
pub open spec fn sp_add(a: ValueV, b: ValueV) -> Result<ValueV, ErrKindV> {
    match a {
        ValueV::Str(s) => Ok(ValueV::Str(s + str_of(b))),
        ValueV::Num(n) => match sp_try_num(b) {
            Some(m) => Ok(ValueV::Num(vstd::wrapping::i64_specs::wrapping_add(n, m))),
            None => Err(ErrKindV::Generic("values can not be added"@)),
        },
        ValueV::List(l) => match b {
            ValueV::List(m) => Ok(ValueV::List(l + m)),
            _ => Ok(ValueV::List(l.push(b))),
        },
        _ => Err(ErrKindV::Generic("values can not be added"@)),
    }
}

/// What `Value::sub` returns: numbers only, wrapping.
pub open spec fn sp_sub(a: ValueV, b: ValueV) -> Result<ValueV, ErrKindV> {
    match a {
        ValueV::Num(n) => match sp_try_num(b) {
            Some(m) => Ok(ValueV::Num(vstd::wrapping::i64_specs::wrapping_sub(n, m))),
            None => Err(ErrKindV::Generic("values can not be subtracted"@)),
        },
        _ => Err(ErrKindV::Generic("values can not be subtracted"@)),
    }
}

/// What `Value::mul` returns: numbers only, wrapping.
pub open spec fn sp_mul(a: ValueV, b: ValueV) -> Result<ValueV, ErrKindV> {
    match a {
        ValueV::Num(n) => match sp_try_num(b) {
            Some(m) => Ok(ValueV::Num(vstd::wrapping::i64_specs::wrapping_mul(n, m))),
            None => Err(ErrKindV::Generic("values can not be multiplied"@)),
        },
        _ => Err(ErrKindV::Generic("values can not be multiplied"@)),
    }
}

/// What `Value::div` returns: numbers only; dividing by zero, or the
/// one overflowing quotient, is an error.
pub open spec fn sp_div(a: ValueV, b: ValueV) -> Result<ValueV, ErrKindV> {
    match a {
        ValueV::Num(n) => match sp_try_num(b) {
            Some(m) => match n.checked_div(m) {
                Some(q) => Ok(ValueV::Num(q)),
                None => Err(ErrKindV::Generic("division by zero"@)),
            },
            None => Err(ErrKindV::Generic("values can not be divided"@)),
        },
        _ => Err(ErrKindV::Generic("values can not be divided"@)),
    }
}

fn str_of_into(v: &Value, out: &mut Vec<char>)
    ensures
        final(out)@ == old(out)@ + str_of(v@),
    decreases *v, 0int,
{
    match v {
        Value::Unit => {
            append_str(out, "Unit");
        },
        Value::Num(n) => {
            push_i64(out, *n);
        },
        Value::Str(s) => {
            append_str(out, s.as_str());
        },
        Value::List(l) => {
            append_str(out, "[");
            str_of_list_into(l, out);
            append_str(out, "]");
        },
        Value::Func(_, _) => {
            append_str(out, "function");
        },
    }
    proof {
        assert(out@ =~= old(out)@ + str_of(v@));
    }
}

fn str_of_list_into(l: &Vec<Value>, out: &mut Vec<char>)
    ensures
        final(out)@ == old(out)@ + str_of_list(view_values(l@)),
    decreases *l, 0int,
{
    let ghost items = view_values(l@);
    let mut i: usize = 0;
    proof {
        assert(old(out)@ + str_of_list(items.take(0)) =~= old(out)@);
    }
    while i < l.len()
        invariant
            i <= l.len(),
            items == view_values(l@),
            out@ == old(out)@ + str_of_list(items.take(i as int)),
        decreases l.len() - i,
    {
        if i > 0 {
            append_str(out, ", ");
        }
        str_of_into(&l[i], out);
        i = i + 1;
        proof {
            assert(items.take(i as int).drop_last() =~= items.take(i as int - 1));
            assert(items.take(i as int).last() == items[i as int - 1]);
            assert(out@ =~= old(out)@ + str_of_list(items.take(i as int)));
        }
    }
    proof {
        assert(items.take(l@.len() as int) =~= items);
    }
}

impl Value {
    /// The textual rendering of the value.
    pub fn to_str(&self) -> (r: String)
        ensures
            r@ == str_of(self@),
    {
        let mut out: Vec<char> = Vec::new();
        str_of_into(self, &mut out);
        proof {
            assert(out@ =~= str_of(self@));
        }
        string_of(&out)
    }

    /// The list's elements, where the value is a list.
    pub fn to_list(self) -> (r: Option<Vec<Value>>)
        ensures
            match r {
                Some(l) => self@ matches ValueV::List(m) && view_values(l@) == m,
                None => !(self@ is List),
            },
    {
        match self {
            Value::List(l) => Some(l),
            _ => None,
        }
    }

    /// The number the value stands for, if any.
    pub fn to_num(&self) -> (r: Option<i64>)
        ensures
            r == sp_try_num(self@),
    {
        match self {
            Value::Num(n) => Some(*n),
            Value::Str(s) => parse_int(s.as_str()),
            _ => None,
        }
    }

    /// The truth of the value, if it stands for a number.
    pub fn to_bool(&self) -> (r: Option<bool>)
        ensures
            r == sp_to_bool(self@),
    {
        match self.to_num() {
            Some(n) => Some(n != 0),
            None => None,
        }
    }

    /// Addition: string concatenation, wrapping numeric sum, or list
    /// append, by the left operand's shape.
    pub fn add(self, rhs: Value) -> (r: Result<Value, ErrorKind>)
        ensures
            match r {
                Ok(v) => sp_add(self@, rhs@) == Ok::<ValueV, ErrKindV>(v@),
                Err(e) => sp_add(self@, rhs@) == Err::<ValueV, ErrKindV>(e@),
            },
    {
        match self {
            Value::Str(s) => {
                let mut out: Vec<char> = Vec::new();
                append_str(&mut out, s.as_str());
                str_of_into(&rhs, &mut out);
                proof {
                    assert(out@ =~= s@ + str_of(rhs@));
                }
                Ok(Value::Str(string_of(&out)))
            },
            Value::Num(n) => match rhs.to_num() {
                Some(m) => Ok(Value::Num(n.wrapping_add(m))),
                None => Err(ErrorKind::Generic("values can not be added".to_owned())),
            },
            Value::List(mut l) => {
                let ghost l0 = view_values(l@);
                match rhs {
                    Value::List(m) => {
                        let mut i: usize = 0;
                        let ghost m0 = view_values(m@);
                        while i < m.len()
                            invariant
                                i <= m.len(),
                                m0 == view_values(m@),
                                view_values(l@) == l0 + m0.take(i as int),
                            decreases m.len() - i,
                        {
                            let ghost lb = l@;
                            let x = m[i].clone();
                            let ghost xv = view_value(x);
                            l.push(x);
                            proof {
                                assert(view_values(l@) =~= view_values(lb).push(xv));
                                assert(xv == m0[i as int]);
                                assert((l0 + m0.take(i as int)).push(m0[i as int]) =~= l0
                                    + m0.take(i as int + 1));
                            }
                            i = i + 1;
                        }
                        proof {
                            assert(l0 + m0.take(m@.len() as int) =~= l0 + m0);
                        }
                        Ok(Value::List(l))
                    },
                    other => {
                        let ghost ov = view_value(other);
                        l.push(other);
                        proof {
                            assert(view_values(l@) =~= l0.push(ov));
                        }
                        Ok(Value::List(l))
                    },
                }
            },
            _ => Err(ErrorKind::Generic("values can not be added".to_owned())),
        }
    }

    /// Subtraction on numbers, wrapping.
    pub fn sub(self, rhs: Value) -> (r: Result<Value, ErrorKind>)
        ensures
            match r {
                Ok(v) => sp_sub(self@, rhs@) == Ok::<ValueV, ErrKindV>(v@),
                Err(e) => sp_sub(self@, rhs@) == Err::<ValueV, ErrKindV>(e@),
            },
    {
        match self {
            Value::Num(n) => match rhs.to_num() {
                Some(m) => Ok(Value::Num(n.wrapping_sub(m))),
                None => Err(ErrorKind::Generic("values can not be subtracted".to_owned())),
            },
            _ => Err(ErrorKind::Generic("values can not be subtracted".to_owned())),
        }
    }

    /// Multiplication on numbers, wrapping.
    pub fn mul(self, rhs: Value) -> (r: Result<Value, ErrorKind>)
        ensures
            match r {
                Ok(v) => sp_mul(self@, rhs@) == Ok::<ValueV, ErrKindV>(v@),
                Err(e) => sp_mul(self@, rhs@) == Err::<ValueV, ErrKindV>(e@),
            },
    {
        match self {
            Value::Num(n) => match rhs.to_num() {
                Some(m) => Ok(Value::Num(n.wrapping_mul(m))),
                None => Err(ErrorKind::Generic("values can not be multiplied".to_owned())),
            },
            _ => Err(ErrorKind::Generic("values can not be multiplied".to_owned())),
        }
    }

    /// Division on numbers; dividing by zero, or the one overflowing
    /// quotient, is an error.
    pub fn div(self, rhs: Value) -> (r: Result<Value, ErrorKind>)
        ensures
            match r {
                Ok(v) => sp_div(self@, rhs@) == Ok::<ValueV, ErrKindV>(v@),
                Err(e) => sp_div(self@, rhs@) == Err::<ValueV, ErrKindV>(e@),
            },
    {
        match self {
            Value::Num(n) => match rhs.to_num() {
                Some(m) => match n.checked_div(m) {
                    Some(q) => Ok(Value::Num(q)),
                    None => Err(ErrorKind::Generic("division by zero".to_owned())),
                },
                None => Err(ErrorKind::Generic("values can not be divided".to_owned())),
            },
            _ => Err(ErrorKind::Generic("values can not be divided".to_owned())),
        }
    }

    /// Structural equality of two values.
    pub fn value_eq(&self, other: &Value) -> (r: bool)
        ensures
            r == sp_value_eq(self@, other@),
        decreases *self, 0int,
    {
        match (self, other) {
            (Value::Unit, Value::Unit) => true,
            (Value::Num(x), Value::Num(y)) => *x == *y,
            (Value::Str(x), Value::Str(y)) => x.eq(y),
            (Value::List(x), Value::List(y)) => lists_eq(x, y),
            _ => false,
        }
    }
}

fn lists_eq(x: &Vec<Value>, y: &Vec<Value>) -> (r: bool)
    ensures
        r == sp_lists_eq(view_values(x@), view_values(y@)),
    decreases *x, 0int,
{
    if x.len() != y.len() {
        return false;
    }
    let mut i: usize = 0;
    while i < x.len()
        invariant
            i <= x.len(),
            x@.len() == y@.len(),
            forall|k: int|
                0 <= k < i ==> sp_value_eq(
                    #[trigger] view_values(x@)[k],
                    view_values(y@)[k],
                ),
        decreases x.len() - i,
    {
        if !x[i].value_eq(&y[i]) {
            proof {
                lemma_lists_eq_index(view_values(x@), view_values(y@), i as int);
            }
            return false;
        }
        i = i + 1;
    }
    proof {
        lemma_lists_eq_all(view_values(x@), view_values(y@));
    }
    true
}

/// Pointwise equality of equal-length lists gives list equality.
proof fn lemma_lists_eq_all(x: Seq<ValueV>, y: Seq<ValueV>)
    requires
        x.len() == y.len(),
        forall|k: int| 0 <= k < x.len() ==> sp_value_eq(#[trigger] x[k], y[k]),
    ensures
        sp_lists_eq(x, y),
    decreases x.len(),
{
    if x.len() > 0 {
        assert(forall|k: int|
            0 <= k < x.len() - 1 ==> #[trigger] x.drop_first()[k] == x[k + 1] && y.drop_first()[k]
                == y[k + 1]);
        lemma_lists_eq_all(x.drop_first(), y.drop_first());
    }
}

/// A differing element at any index refutes list equality.
proof fn lemma_lists_eq_index(x: Seq<ValueV>, y: Seq<ValueV>, i: int)
    requires
        x.len() == y.len(),
        0 <= i < x.len(),
        !sp_value_eq(x[i], y[i]),
    ensures
        !sp_lists_eq(x, y),
    decreases i,
{
    if i > 0 {
        lemma_lists_eq_index(x.drop_first(), y.drop_first(), i - 1);
    }
}

} // verus!
