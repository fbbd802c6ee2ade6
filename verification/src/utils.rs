//! Recoverable errors carried by resolution and evaluation, and small
//! shared helpers.

use vstd::prelude::*;

use crate::position::{PosV, Position};
use crate::text::{chars_of, push_char, string_of};

verus! {

/// Mathematical model of an error kind.
pub enum ErrKindV {
    Boxed(Box<ErrV>),
    Generic(Seq<char>),
    NotDeclared(Seq<char>),
    AlreadyDeclared(Seq<char>),
    WrongArgCount(nat, nat),
}

/// Mathematical model of a positioned error.
pub struct ErrV {
    pub kind: ErrKindV,
    pub pos: PosV,
}

/// The failure classes of resolution and evaluation. `Boxed` carries an
/// already-positioned error across a nesting boundary without re-tagging
/// its position.
#[derive(Debug)]
pub enum ErrorKind {
    Boxed(Box<Error>),
    Generic(String),
    NotDeclared(String),
    AlreadyDeclared(String),
    WrongArgCount(usize, usize),
}

/// An error kind together with the source position it arose at.
#[derive(Debug)]
pub struct Error {
    pub tpe: ErrorKind,
    pub pos: Position,
}

pub open spec fn view_err_kind(k: &ErrorKind) -> ErrKindV
    decreases k,
{
    match k {
        ErrorKind::Boxed(e) => ErrKindV::Boxed(Box::new(view_err(e))),
        ErrorKind::Generic(s) => ErrKindV::Generic(s@),
        ErrorKind::NotDeclared(s) => ErrKindV::NotDeclared(s@),
        ErrorKind::AlreadyDeclared(s) => ErrKindV::AlreadyDeclared(s@),
        ErrorKind::WrongArgCount(e, g) => ErrKindV::WrongArgCount(*e as nat, *g as nat),
    }
}

pub open spec fn view_err(e: &Error) -> ErrV
    decreases e,
{
    ErrV { kind: view_err_kind(&e.tpe), pos: e.pos@ }
}

impl View for ErrorKind {
    type V = ErrKindV;

    open spec fn view(&self) -> ErrKindV {
        view_err_kind(self)
    }
}

impl View for Error {
    type V = ErrV;

    open spec fn view(&self) -> ErrV {
        view_err(self)
    }
}

/// What `ErrorKind::with_position` returns: a `Boxed` kind keeps the
/// position it already carries, any other kind is tagged with `p`.
pub open spec fn with_pos_spec(k: ErrKindV, p: PosV) -> ErrV {
    match k {
        ErrKindV::Boxed(e) => *e,
        _ => ErrV { kind: k, pos: p },
    }
}

impl ErrorKind {
    /// Attaches a position, except to an already-positioned `Boxed` error.
    pub fn with_position(self, pos: &Position) -> (r: Error)
        ensures
            r@ == with_pos_spec(self@, pos@),
    {
        match self {
            ErrorKind::Boxed(err) => *err,
            tpe => Error { tpe, pos: pos.clone() },
        }
    }
}

/// The comma-separated rendering of a list of items: empty for no items,
/// otherwise the items joined by ", ".
pub open spec fn join_comma(items: Seq<Seq<char>>) -> Seq<char>
    decreases items.len(),
{
    if items.len() == 0 {
        Seq::<char>::empty()
    } else if items.len() == 1 {
        items[0]
    } else {
        join_comma(items.drop_last()) + ", "@ + items.last()
    }
}

/// Appends every character of `s` to `out`.
pub fn append_str(out: &mut Vec<char>, s: &str)
    ensures
        final(out)@ == old(out)@ + s@,
{
    let cs = chars_of(s);
    let mut i: usize = 0;
    while i < cs.len()
        invariant
            i <= cs.len(),
            cs@ == s@,
            out@ == old(out)@ + s@.take(i as int),
        decreases cs.len() - i,
    {
        out.push(cs[i]);
        i = i + 1;
        proof {
            assert(old(out)@ + s@.take(i as int) =~= (old(out)@ + s@.take(i as int - 1)).push(
                s@[i as int - 1],
            ));
        }
    }
    proof {
        assert(old(out)@ + s@.take(s@.len() as int) =~= old(out)@ + s@);
    }
}

/// Joins the given strings with ", ".
pub fn concat(lst: &Vec<String>) -> (r: String)
    ensures
        r@ == join_comma(lst@.map_values(|s: String| s@)),
{
    let ghost items = lst@.map_values(|s: String| s@);
    let mut out: Vec<char> = Vec::new();
    let mut i: usize = 0;
    proof {
        assert(out@ =~= join_comma(items.take(0)));
    }
    while i < lst.len()
        invariant
            i <= lst.len(),
            items == lst@.map_values(|s: String| s@),
            out@ == join_comma(items.take(i as int)),
        decreases lst.len() - i,
    {
        if i > 0 {
            append_str(&mut out, ", ");
        }
        append_str(&mut out, lst[i].as_str());
        i = i + 1;
        proof {
            assert(items.take(i as int).drop_last() =~= items.take(i as int - 1));
            assert(items.take(i as int).last() == items[i as int - 1]);
            if i > 1 {
                assert(out@ =~= join_comma(items.take(i as int)));
            } else {
                assert(out@ =~= join_comma(items.take(i as int)));
            }
        }
    }
    proof {
        assert(items.take(lst@.len() as int) =~= items);
    }
    string_of(&out)
}

/// Boxes a value.
pub fn box_<T>(t: T) -> (r: Box<T>)
    ensures
        *r == t,
{
    Box::new(t)
}

} // verus!
