//! The shared recursive syntax tree, in unresolved (names as text) and
//! resolved (names as symbol references) flavors, with its printer.

use vstd::prelude::*;

use crate::position::{PosV, Position};
use crate::symbol::{SymV, SymbolRef};
use crate::text::string_of;
use crate::utils::append_str;

verus! {

/// Mathematical model of a tree node kind.
pub enum TreeTypeV {
    Empty,
    Def(Seq<char>, Box<TreeV>),
    Assign(Seq<char>, Box<TreeV>),
    Ident(Seq<char>),
    For(Seq<char>, Box<TreeV>, Box<TreeV>),
    Func(Seq<Seq<char>>, Box<TreeV>),
    DefRef(SymV, Box<TreeV>),
    AssignRef(SymV, Box<TreeV>),
    IdentRef(SymV),
    ForRef(SymV, Box<TreeV>, Box<TreeV>),
    FuncRef(Seq<SymV>, Box<TreeV>),
    IntLit(i64),
    StrLit(Seq<char>),
    Add(Box<TreeV>, Box<TreeV>),
    Sub(Box<TreeV>, Box<TreeV>),
    Mul(Box<TreeV>, Box<TreeV>),
    Div(Box<TreeV>, Box<TreeV>),
    Eq(Box<TreeV>, Box<TreeV>),
    Neq(Box<TreeV>, Box<TreeV>),
    Call(Box<TreeV>, Box<TreeV>),
    ListLit(Seq<TreeV>),
    Tuple(Seq<TreeV>),
    Block(Seq<TreeV>),
    If(Box<TreeV>, Box<TreeV>, Box<TreeV>),
    While(Box<TreeV>, Box<TreeV>),
    Error(Seq<char>),
}

/// Mathematical model of a positioned tree node.
pub struct TreeV {
    pub tree: TreeTypeV,
    pub pos: PosV,
}

/// A tree node kind. The `..Ref` variants carry resolved symbol
/// references and only appear after name analysis; `Def`, `Assign`,
/// `Ident`, `For` and `Func` carry raw names and only appear before it.
#[derive(Debug)]
pub enum TreeType {
    Empty,
    Def(String, Box<Tree>),
    Assign(String, Box<Tree>),
    Ident(String),
    For(String, Box<Tree>, Box<Tree>),
    Func(Vec<String>, Box<Tree>),
    DefRef(SymbolRef, Box<Tree>),
    AssignRef(SymbolRef, Box<Tree>),
    IdentRef(SymbolRef),
    ForRef(SymbolRef, Box<Tree>, Box<Tree>),
    FuncRef(Vec<SymbolRef>, Box<Tree>),
    IntLit(i64),
    StrLit(String),
    Add(Box<Tree>, Box<Tree>),
    Sub(Box<Tree>, Box<Tree>),
    Mul(Box<Tree>, Box<Tree>),
    Div(Box<Tree>, Box<Tree>),
    Eq(Box<Tree>, Box<Tree>),
    Neq(Box<Tree>, Box<Tree>),
    Call(Box<Tree>, Box<Tree>),
    ListLit(Vec<Tree>),
    Tuple(Vec<Tree>),
    Block(Vec<Tree>),
    If(Box<Tree>, Box<Tree>, Box<Tree>),
    While(Box<Tree>, Box<Tree>),
    Error(String),
}

/// A tree node kind together with its source position.
#[derive(Debug)]
pub struct Tree {
    pub tree: TreeType,
    pub pos: Position,
}

/// The views of a sequence of parameter names.
pub open spec fn names_view(v: Seq<String>) -> Seq<Seq<char>> {
    v.map_values(|s: String| s@)
}

/// The views of a sequence of symbol references.
pub open spec fn syms_view(v: Seq<SymbolRef>) -> Seq<SymV> {
    v.map_values(|s: SymbolRef| s@)
}

/// The names of a sequence of symbols.
pub open spec fn sym_names(v: Seq<SymV>) -> Seq<Seq<char>> {
    v.map_values(|s: SymV| s.name)
}

pub open spec fn view_trees(v: Seq<Tree>) -> Seq<TreeV>
    decreases v,
{
    Seq::new(
        v.len(),
        |i: int|
            if 0 <= i < v.len() {
                view_tree(v[i])
            } else {
                TreeV { tree: TreeTypeV::Empty, pos: PosV { file: Seq::empty(), line: 0, col: 0 } }
            },
    )
}

pub open spec fn view_tree(t: Tree) -> TreeV
    decreases t,
{
    TreeV { tree: view_tree_type(t.tree), pos: t.pos@ }
}

pub open spec fn view_tree_type(t: TreeType) -> TreeTypeV
    decreases t,
{
    match t {
        TreeType::Empty => TreeTypeV::Empty,
        TreeType::Def(n, r) => TreeTypeV::Def(n@, Box::new(view_tree(*r))),
        TreeType::Assign(n, r) => TreeTypeV::Assign(n@, Box::new(view_tree(*r))),
        TreeType::Ident(n) => TreeTypeV::Ident(n@),
        TreeType::For(n, c, b) => TreeTypeV::For(
            n@,
            Box::new(view_tree(*c)),
            Box::new(view_tree(*b)),
        ),
        TreeType::Func(ps, b) => TreeTypeV::Func(names_view(ps@), Box::new(view_tree(*b))),
        TreeType::DefRef(s, r) => TreeTypeV::DefRef(s@, Box::new(view_tree(*r))),
        TreeType::AssignRef(s, r) => TreeTypeV::AssignRef(s@, Box::new(view_tree(*r))),
        TreeType::IdentRef(s) => TreeTypeV::IdentRef(s@),
        TreeType::ForRef(s, c, b) => TreeTypeV::ForRef(
            s@,
            Box::new(view_tree(*c)),
            Box::new(view_tree(*b)),
        ),
        TreeType::FuncRef(ps, b) => TreeTypeV::FuncRef(syms_view(ps@), Box::new(view_tree(*b))),
        TreeType::IntLit(n) => TreeTypeV::IntLit(n),
        TreeType::StrLit(s) => TreeTypeV::StrLit(s@),
        TreeType::Add(l, r) => TreeTypeV::Add(Box::new(view_tree(*l)), Box::new(view_tree(*r))),
        TreeType::Sub(l, r) => TreeTypeV::Sub(Box::new(view_tree(*l)), Box::new(view_tree(*r))),
        TreeType::Mul(l, r) => TreeTypeV::Mul(Box::new(view_tree(*l)), Box::new(view_tree(*r))),
        TreeType::Div(l, r) => TreeTypeV::Div(Box::new(view_tree(*l)), Box::new(view_tree(*r))),
        TreeType::Eq(l, r) => TreeTypeV::Eq(Box::new(view_tree(*l)), Box::new(view_tree(*r))),
        TreeType::Neq(l, r) => TreeTypeV::Neq(Box::new(view_tree(*l)), Box::new(view_tree(*r))),
        TreeType::Call(f, a) => TreeTypeV::Call(Box::new(view_tree(*f)), Box::new(view_tree(*a))),
        TreeType::ListLit(v) => TreeTypeV::ListLit(view_trees(v@)),
        TreeType::Tuple(v) => TreeTypeV::Tuple(view_trees(v@)),
        TreeType::Block(v) => TreeTypeV::Block(view_trees(v@)),
        TreeType::If(c, t2, e) => TreeTypeV::If(
            Box::new(view_tree(*c)),
            Box::new(view_tree(*t2)),
            Box::new(view_tree(*e)),
        ),
        TreeType::While(c, b) => TreeTypeV::While(Box::new(view_tree(*c)), Box::new(view_tree(*b))),
        TreeType::Error(m) => TreeTypeV::Error(m@),
    }
}

impl View for TreeType {
    type V = TreeTypeV;

    open spec fn view(&self) -> TreeTypeV {
        view_tree_type(*self)
    }
}

impl View for Tree {
    type V = TreeV;

    open spec fn view(&self) -> TreeV {
        view_tree(*self)
    }
}

impl TreeType {
    /// Pairs the node kind with a source position.
    pub fn with_pos(self, pos: Position) -> (r: Tree)
        ensures
            r@.tree == self@,
            r@.pos == pos@,
    {
        Tree { tree: self, pos }
    }
}

/// Whether the node itself is a parse-error node.
pub open spec fn is_error_node(t: TreeV) -> bool {
    t.tree is Error
}

/// Whether any node of the tree is a parse-error node.
pub open spec fn tree_has_error(t: TreeV) -> bool
    decreases t,
{
    match t.tree {
        TreeTypeV::Error(_) => true,
        TreeTypeV::Empty => false,
        TreeTypeV::Def(_, r) => tree_has_error(*r),
        TreeTypeV::Assign(_, r) => tree_has_error(*r),
        TreeTypeV::Ident(_) => false,
        TreeTypeV::For(_, c, b) => tree_has_error(*c) || tree_has_error(*b),
        TreeTypeV::Func(_, b) => tree_has_error(*b),
        TreeTypeV::DefRef(_, r) => tree_has_error(*r),
        TreeTypeV::AssignRef(_, r) => tree_has_error(*r),
        TreeTypeV::IdentRef(_) => false,
        TreeTypeV::ForRef(_, c, b) => tree_has_error(*c) || tree_has_error(*b),
        TreeTypeV::FuncRef(_, b) => tree_has_error(*b),
        TreeTypeV::IntLit(_) => false,
        TreeTypeV::StrLit(_) => false,
        TreeTypeV::Add(l, r) => tree_has_error(*l) || tree_has_error(*r),
        TreeTypeV::Sub(l, r) => tree_has_error(*l) || tree_has_error(*r),
        TreeTypeV::Mul(l, r) => tree_has_error(*l) || tree_has_error(*r),
        TreeTypeV::Div(l, r) => tree_has_error(*l) || tree_has_error(*r),
        TreeTypeV::Eq(l, r) => tree_has_error(*l) || tree_has_error(*r),
        TreeTypeV::Neq(l, r) => tree_has_error(*l) || tree_has_error(*r),
        TreeTypeV::Call(f, a) => tree_has_error(*f) || tree_has_error(*a),
        TreeTypeV::ListLit(v) => trees_have_error(v),
        TreeTypeV::Tuple(v) => trees_have_error(v),
        TreeTypeV::Block(v) => trees_have_error(v),
        TreeTypeV::If(c, t2, e) => tree_has_error(*c) || tree_has_error(*t2) || tree_has_error(*e),
        TreeTypeV::While(c, b) => tree_has_error(*c) || tree_has_error(*b),
    }
}

pub open spec fn trees_have_error(v: Seq<TreeV>) -> bool
    decreases v,
{
    if v.len() == 0 {
        false
    } else {
        tree_has_error(v[0]) || trees_have_error(v.drop_first())
    }
}

impl Tree {
    /// Whether this node is a parse-error node.
    pub fn is_error(&self) -> (r: bool)
        ensures
            r == is_error_node(self@),
    {
        match &self.tree {
            TreeType::Error(_) => true,
            _ => false,
        }
    }

    /// Whether this node is the empty (unit) node.
    pub fn is_empty(&self) -> (r: bool)
        ensures
            r == (self@.tree is Empty),
    {
        match &self.tree {
            TreeType::Empty => true,
            _ => false,
        }
    }

    /// The raw name carried by an unresolved declaration, assignment or
    /// identifier node.
    pub fn name(&self) -> (r: Option<&String>)
        ensures
            match r {
                Some(n) => (self@.tree matches TreeTypeV::Def(m, _) && m == n@) || (
                self@.tree matches TreeTypeV::Assign(m, _) && m == n@) || (
                self@.tree matches TreeTypeV::Ident(m) && m == n@),
                None => !(self@.tree is Def) && !(self@.tree is Assign) && !(self@.tree is Ident),
            },
    {
        match &self.tree {
            TreeType::Def(n, _) => Some(n),
            TreeType::Assign(n, _) => Some(n),
            TreeType::Ident(n) => Some(n),
            _ => None,
        }
    }

    /// The raw name of an unresolved identifier node.
    pub fn ident_name(&self) -> (r: Option<&String>)
        ensures
            match r {
                Some(n) => self@.tree matches TreeTypeV::Ident(m) && m == n@,
                None => !(self@.tree is Ident),
            },
    {
        match &self.tree {
            TreeType::Ident(n) => Some(n),
            _ => None,
        }
    }

    /// The position of the node.
    pub fn position(&self) -> (r: &Position)
        ensures
            r@ == self@.pos,
    {
        &self.pos
    }

    /// Whether any node of this tree is a parse-error node.
    pub fn has_error(&self) -> (r: bool)
        ensures
            r == tree_has_error(self@),
        decreases *self,
    {
        match &self.tree {
            TreeType::Error(_) => true,
            TreeType::Empty => false,
            TreeType::Def(_, r) => r.has_error(),
            TreeType::Assign(_, r) => r.has_error(),
            TreeType::Ident(_) => false,
            TreeType::For(_, c, b) => c.has_error() || b.has_error(),
            TreeType::Func(_, b) => b.has_error(),
            TreeType::DefRef(_, r) => r.has_error(),
            TreeType::AssignRef(_, r) => r.has_error(),
            TreeType::IdentRef(_) => false,
            TreeType::ForRef(_, c, b) => c.has_error() || b.has_error(),
            TreeType::FuncRef(_, b) => b.has_error(),
            TreeType::IntLit(_) => false,
            TreeType::StrLit(_) => false,
            TreeType::Add(l, r) => l.has_error() || r.has_error(),
            TreeType::Sub(l, r) => l.has_error() || r.has_error(),
            TreeType::Mul(l, r) => l.has_error() || r.has_error(),
            TreeType::Div(l, r) => l.has_error() || r.has_error(),
            TreeType::Eq(l, r) => l.has_error() || r.has_error(),
            TreeType::Neq(l, r) => l.has_error() || r.has_error(),
            TreeType::Call(f, a) => f.has_error() || a.has_error(),
            TreeType::ListLit(v) => trees_have_error_exec(v),
            TreeType::Tuple(v) => trees_have_error_exec(v),
            TreeType::Block(v) => trees_have_error_exec(v),
            TreeType::If(c, t2, e) => c.has_error() || t2.has_error() || e.has_error(),
            TreeType::While(c, b) => c.has_error() || b.has_error(),
        }
    }
}

fn trees_have_error_exec(v: &Vec<Tree>) -> (r: bool)
    ensures
        r == trees_have_error(view_trees(v@)),
    decreases *v,
{
    let mut i: usize = 0;
    while i < v.len()
        invariant
            i <= v.len(),
            !trees_have_error(view_trees(v@).take(i as int)),
            forall|k: int| 0 <= k < i ==> !tree_has_error(view_trees(v@)[k]),
        decreases v.len() - i,
    {
        if v[i].has_error() {
            proof {
                lemma_trees_have_error_index(view_trees(v@), i as int);
            }
            return true;
        }
        i = i + 1;
        proof {
            lemma_trees_have_error_none(view_trees(v@).take(i as int));
        }
    }
    proof {
        assert(view_trees(v@).take(v@.len() as int) =~= view_trees(v@));
    }
    false
}

/// A sequence with an erroneous element has an error.
proof fn lemma_trees_have_error_index(v: Seq<TreeV>, i: int)
    requires
        0 <= i < v.len(),
        tree_has_error(v[i]),
    ensures
        trees_have_error(v),
    decreases v.len(),
{
    if i > 0 {
        lemma_trees_have_error_index(v.drop_first(), i - 1);
    }
}

/// A sequence all of whose elements are error-free has no error.
proof fn lemma_trees_have_error_none(v: Seq<TreeV>)
    requires
        forall|k: int| 0 <= k < v.len() ==> !tree_has_error(#[trigger] v[k]),
    ensures
        !trees_have_error(v),
    decreases v.len(),
{
    if v.len() > 0 {
        lemma_trees_have_error_none(v.drop_first());
    }
}

impl Clone for Tree {
    /// A structurally equal copy of the tree.
    fn clone(&self) -> (r: Self)
        ensures
            r@ == self@,
        decreases *self,
    {
        Tree { tree: self.tree.clone(), pos: self.pos.clone() }
    }
}

impl Clone for TreeType {
    fn clone(&self) -> (r: Self)
        ensures
            r@ == self@,
        decreases *self,
    {
        match self {
            TreeType::Empty => TreeType::Empty,
            TreeType::Def(n, r) => TreeType::Def(n.clone(), Box::new((**r).clone())),
            TreeType::Assign(n, r) => TreeType::Assign(n.clone(), Box::new((**r).clone())),
            TreeType::Ident(n) => TreeType::Ident(n.clone()),
            TreeType::For(n, c, b) => TreeType::For(
                n.clone(),
                Box::new((**c).clone()),
                Box::new((**b).clone()),
            ),
            TreeType::Func(ps, b) => TreeType::Func(clone_strings(ps), Box::new((**b).clone())),
            TreeType::DefRef(s, r) => TreeType::DefRef(s.clone(), Box::new((**r).clone())),
            TreeType::AssignRef(s, r) => TreeType::AssignRef(s.clone(), Box::new((**r).clone())),
            TreeType::IdentRef(s) => TreeType::IdentRef(s.clone()),
            TreeType::ForRef(s, c, b) => TreeType::ForRef(
                s.clone(),
                Box::new((**c).clone()),
                Box::new((**b).clone()),
            ),
            TreeType::FuncRef(ps, b) => TreeType::FuncRef(
                clone_symrefs(ps),
                Box::new((**b).clone()),
            ),
            TreeType::IntLit(n) => TreeType::IntLit(*n),
            TreeType::StrLit(s) => TreeType::StrLit(s.clone()),
            TreeType::Add(l, r) => TreeType::Add(Box::new((**l).clone()), Box::new((**r).clone())),
            TreeType::Sub(l, r) => TreeType::Sub(Box::new((**l).clone()), Box::new((**r).clone())),
            TreeType::Mul(l, r) => TreeType::Mul(Box::new((**l).clone()), Box::new((**r).clone())),
            TreeType::Div(l, r) => TreeType::Div(Box::new((**l).clone()), Box::new((**r).clone())),
            TreeType::Eq(l, r) => TreeType::Eq(Box::new((**l).clone()), Box::new((**r).clone())),
            TreeType::Neq(l, r) => TreeType::Neq(Box::new((**l).clone()), Box::new((**r).clone())),
            TreeType::Call(f, a) => TreeType::Call(
                Box::new((**f).clone()),
                Box::new((**a).clone()),
            ),
            TreeType::ListLit(v) => TreeType::ListLit(clone_trees(v)),
            TreeType::Tuple(v) => TreeType::Tuple(clone_trees(v)),
            TreeType::Block(v) => TreeType::Block(clone_trees(v)),
            TreeType::If(c, t2, e) => TreeType::If(
                Box::new((**c).clone()),
                Box::new((**t2).clone()),
                Box::new((**e).clone()),
            ),
            TreeType::While(c, b) => TreeType::While(
                Box::new((**c).clone()),
                Box::new((**b).clone()),
            ),
            TreeType::Error(m) => TreeType::Error(m.clone()),
        }
    }
}

fn clone_trees(v: &Vec<Tree>) -> (r: Vec<Tree>)
    ensures
        view_trees(r@) == view_trees(v@),
    decreases *v,
{
    let mut r: Vec<Tree> = Vec::new();
    let mut i: usize = 0;
    while i < v.len()
        invariant
            i <= v.len(),
            r@.len() == i,
            forall|k: int| 0 <= k < i ==> view_tree(#[trigger] r@[k]) == view_tree(v@[k]),
        decreases v.len() - i,
    {
        r.push(v[i].clone());
        i = i + 1;
    }
    proof {
        assert(view_trees(r@) =~= view_trees(v@));
    }
    r
}

fn clone_strings(v: &Vec<String>) -> (r: Vec<String>)
    ensures
        names_view(r@) == names_view(v@),
{
    let mut r: Vec<String> = Vec::new();
    let mut i: usize = 0;
    while i < v.len()
        invariant
            i <= v.len(),
            r@.len() == i,
            forall|k: int| 0 <= k < i ==> (#[trigger] r@[k])@ == v@[k]@,
        decreases v.len() - i,
    {
        r.push(v[i].clone());
        i = i + 1;
    }
    proof {
        assert(names_view(r@) =~= names_view(v@));
    }
    r
}

fn clone_symrefs(v: &Vec<SymbolRef>) -> (r: Vec<SymbolRef>)
    ensures
        syms_view(r@) == syms_view(v@),
{
    let mut r: Vec<SymbolRef> = Vec::new();
    let mut i: usize = 0;
    while i < v.len()
        invariant
            i <= v.len(),
            r@.len() == i,
            forall|k: int| 0 <= k < i ==> (#[trigger] r@[k])@ == v@[k]@,
        decreases v.len() - i,
    {
        r.push(v[i].clone());
        i = i + 1;
    }
    proof {
        assert(syms_view(r@) =~= syms_view(v@));
    }
    r
}

} // verus!
