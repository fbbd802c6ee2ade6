//! Symbols: uniquely numbered declaration sites, independent of their name.

use vstd::prelude::*;

use std::rc::Rc;

verus! {

pub type SymbolId = usize;

pub type SymbolName = String;

/// Mathematical model of a symbol: its name and its dense id.
pub struct SymV {
    pub name: Seq<char>,
    pub id: nat,
}

/// An immutable (name, id) pair; the id is assigned by `Context::decl`
/// and equals the count of symbols declared before it.
#[derive(Debug)]
pub struct Symbol {
    pub name: SymbolName,
    pub id: SymbolId,
}

impl View for Symbol {
    type V = SymV;

    open spec fn view(&self) -> SymV {
        SymV { name: self.name@, id: self.id as nat }
    }
}

/// A shared handle to a `Symbol`; identity is by id, never by name.
#[derive(Debug)]
pub struct SymbolRef {
    pub symbol: Rc<Symbol>,
}

impl View for SymbolRef {
    type V = SymV;

    open spec fn view(&self) -> SymV {
        self.symbol@
    }
}

/// Relies on `Rc::clone`: returns a handle to the same symbol.
#[verifier::external_body]
fn rc_clone_symbol(rc: &Rc<Symbol>) -> (r: Rc<Symbol>)
    ensures
        r == *rc,
{
    rc.clone()
}

impl Clone for SymbolRef {
    fn clone(&self) -> (r: Self)
        ensures
            r@ == self@,
    {
        SymbolRef { symbol: rc_clone_symbol(&self.symbol) }
    }
}

impl Symbol {
    pub fn new(name: SymbolName, id: SymbolId) -> (r: Symbol)
        ensures
            r@.name == name@,
            r@.id == id,
    {
        Symbol { name, id }
    }

    /// Wraps the symbol into a shared handle.
    pub fn into_ref(self) -> (r: SymbolRef)
        ensures
            r@ == self@,
    {
        SymbolRef { symbol: Rc::new(self) }
    }
}

impl SymbolRef {
    pub fn name(&self) -> (r: &SymbolName)
        ensures
            r@ == self@.name,
    {
        &self.symbol.name
    }

    pub fn id(&self) -> (r: SymbolId)
        ensures
            r == self@.id,
    {
        self.symbol.id
    }
}

} // verus!
