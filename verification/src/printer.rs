//! Prints a tree back to source text. Printing an error-free parsed tree
//! yields text that re-parses to a structurally equal tree.

use vstd::prelude::*;

use crate::symbol::SymV;
use crate::text::string_of;
use crate::tree::{sym_names, Tree, TreeType, TreeTypeV, TreeV};
use crate::utils::{append_str, join_comma};

verus! {

/// The decimal digit character for `d` (0 to 9).
pub open spec fn dec_digit(d: int) -> char {
    if d == 0 {
        '0'
    } else if d == 1 {
        '1'
    } else if d == 2 {
        '2'
    } else if d == 3 {
        '3'
    } else if d == 4 {
        '4'
    } else if d == 5 {
        '5'
    } else if d == 6 {
        '6'
    } else if d == 7 {
        '7'
    } else if d == 8 {
        '8'
    } else {
        '9'
    }
}

/// Decimal digits of a nonnegative number.
pub open spec fn dec_nat(n: int) -> Seq<char>
    decreases n,
{
    if n < 10 {
        seq![dec_digit(n)]
    } else {
        dec_nat(n / 10).push(dec_digit(n % 10))
    }
}

/// Decimal rendering of an integer, with a leading minus when negative.
pub open spec fn dec_int(n: int) -> Seq<char> {
    if n < 0 {
        seq!['-'] + dec_nat(-n)
    } else {
        dec_nat(n)
    }
}

/// The printed form of a tree.
pub open spec fn print_tree(t: TreeV) -> Seq<char>
    decreases t, 0int,
{
    match t.tree {
        TreeTypeV::Empty => "()"@,
        TreeTypeV::Def(n, r) => "let "@ + n + " = "@ + print_tree(*r),
        TreeTypeV::Assign(n, r) => n + " = "@ + print_tree(*r),
        TreeTypeV::Ident(n) => n,
        TreeTypeV::For(n, c, b) => "for "@ + n + " : "@ + print_tree(*c) + " "@ + print_tree(*b),
        TreeTypeV::Func(ps, b) => "(("@ + join_comma(ps) + ") => "@ + print_tree(*b) + ")"@,
        TreeTypeV::DefRef(s, r) => "let "@ + s.name + " = "@ + print_tree(*r),
        TreeTypeV::AssignRef(s, r) => s.name + " = "@ + print_tree(*r),
        TreeTypeV::IdentRef(s) => s.name,
        TreeTypeV::ForRef(s, c, b) => "for "@ + s.name + " : "@ + print_tree(*c) + " "@
            + print_tree(*b),
        TreeTypeV::FuncRef(ps, b) => "(("@ + join_comma(sym_names(ps)) + ") => "@
            + print_tree(*b) + ")"@,
        TreeTypeV::IntLit(n) => dec_int(n as int),
        TreeTypeV::StrLit(s) => "\""@ + s + "\""@,
        TreeTypeV::Add(l, r) => "("@ + print_tree(*l) + " + "@ + print_tree(*r) + ")"@,
        TreeTypeV::Sub(l, r) => "("@ + print_tree(*l) + " - "@ + print_tree(*r) + ")"@,
        TreeTypeV::Mul(l, r) => "("@ + print_tree(*l) + " * "@ + print_tree(*r) + ")"@,
        TreeTypeV::Div(l, r) => "("@ + print_tree(*l) + " / "@ + print_tree(*r) + ")"@,
        TreeTypeV::Eq(l, r) => "("@ + print_tree(*l) + " == "@ + print_tree(*r) + ")"@,
        TreeTypeV::Neq(l, r) => "("@ + print_tree(*l) + " != "@ + print_tree(*r) + ")"@,
        TreeTypeV::Call(f, a) => print_tree(*f) + "("@ + print_args(*a) + ")"@,
        TreeTypeV::ListLit(v) => "["@ + print_joined(v) + "]"@,
        TreeTypeV::Tuple(v) => "("@ + print_trailing(v) + ")"@,
        TreeTypeV::Block(v) => "{\n"@ + print_lines(v) + "}"@,
        TreeTypeV::If(c, t2, e) => if (*e).tree is Empty {
            "if "@ + print_tree(*c) + " "@ + print_tree(*t2)
        } else {
            "if "@ + print_tree(*c) + " "@ + print_tree(*t2) + " else "@ + print_tree(*e)
        },
        TreeTypeV::While(c, b) => "while "@ + print_tree(*c) + " "@ + print_tree(*b),
        TreeTypeV::Error(m) => "<error: "@ + m + ">"@,
    }
}

/// Call arguments: a list literal prints as its comma-separated
/// elements, anything else as itself.
pub open spec fn print_args(a: TreeV) -> Seq<char>
    decreases a, 1int,
{
    match a.tree {
        TreeTypeV::ListLit(v) => print_trailing(v),
        _ => print_tree(a),
    }
}

/// Elements each followed by ", ", preserving arity on re-parse.
pub open spec fn print_trailing(v: Seq<TreeV>) -> Seq<char>
    decreases v,
{
    if v.len() == 0 {
        Seq::<char>::empty()
    } else {
        print_trailing(v.drop_last()) + print_tree(v.last()) + ", "@
    }
}

/// Elements joined by ", ".
pub open spec fn print_joined(v: Seq<TreeV>) -> Seq<char>
    decreases v,
{
    if v.len() == 0 {
        Seq::<char>::empty()
    } else if v.len() == 1 {
        print_tree(v[0])
    } else {
        print_joined(v.drop_last()) + ", "@ + print_tree(v.last())
    }
}

/// Statements, one per line.
pub open spec fn print_lines(v: Seq<TreeV>) -> Seq<char>
    decreases v,
{
    if v.len() == 0 {
        Seq::<char>::empty()
    } else {
        print_lines(v.drop_last()) + print_tree(v.last()) + "\n"@
    }
}

fn digit_ch(d: u64) -> (c: char)
    requires
        d < 10,
    ensures
        c == dec_digit(d as int),
{
    if d == 0 {
        '0'
    } else if d == 1 {
        '1'
    } else if d == 2 {
        '2'
    } else if d == 3 {
        '3'
    } else if d == 4 {
        '4'
    } else if d == 5 {
        '5'
    } else if d == 6 {
        '6'
    } else if d == 7 {
        '7'
    } else if d == 8 {
        '8'
    } else {
        '9'
    }
}

fn push_u64(out: &mut Vec<char>, n: u64)
    ensures
        final(out)@ == old(out)@ + dec_nat(n as int),
    decreases n,
{
    if n < 10 {
        out.push(digit_ch(n));
        proof {
            assert(out@ =~= old(out)@ + dec_nat(n as int));
        }
    } else {
        push_u64(out, n / 10);
        out.push(digit_ch(n % 10));
        proof {
            assert(out@ =~= old(out)@ + dec_nat(n as int));
        }
    }
}

/// Appends the decimal rendering of `n`.
pub fn push_i64(out: &mut Vec<char>, n: i64)
    ensures
        final(out)@ == old(out)@ + dec_int(n as int),
{
    if n >= 0 {
        push_u64(out, n as u64);
    } else {
        out.push('-');
        let mag: u64 = if n == i64::MIN {
            9223372036854775808u64
        } else {
            (-n) as u64
        };
        push_u64(out, mag);
        proof {
            assert(out@ =~= old(out)@ + dec_int(n as int));
        }
    }
}

#[verifier::rlimit(100)]
fn print_into(t: &Tree, out: &mut Vec<char>)
    ensures
        final(out)@ == old(out)@ + print_tree(t@),
    decreases *t, 0int,
{
    match &t.tree {
        TreeType::Empty => {
            append_str(out, "()");
            proof {
                assert(out@ =~= old(out)@ + print_tree(t@));
            }
        },
        TreeType::Def(n, r) => {
            append_str(out, "let ");
            append_str(out, n.as_str());
            append_str(out, " = ");
            print_into(r, out);
            proof {
                assert(out@ =~= old(out)@ + print_tree(t@));
            }
        },
        TreeType::Assign(n, r) => {
            append_str(out, n.as_str());
            append_str(out, " = ");
            print_into(r, out);
            proof {
                assert(out@ =~= old(out)@ + print_tree(t@));
            }
        },
        TreeType::Ident(n) => {
            append_str(out, n.as_str());
            proof {
                assert(out@ =~= old(out)@ + print_tree(t@));
            }
        },
        TreeType::For(n, c, b) => {
            append_str(out, "for ");
            append_str(out, n.as_str());
            append_str(out, " : ");
            print_into(c, out);
            append_str(out, " ");
            print_into(b, out);
            proof {
                assert(out@ =~= old(out)@ + print_tree(t@));
            }
        },
        TreeType::Func(ps, b) => {
            append_str(out, "((");
            print_names(ps, out);
            append_str(out, ") => ");
            print_into(b, out);
            append_str(out, ")");
            proof {
                assert(out@ =~= old(out)@ + print_tree(t@));
            }
        },
        TreeType::DefRef(s, r) => {
            append_str(out, "let ");
            append_str(out, s.name().as_str());
            append_str(out, " = ");
            print_into(r, out);
            proof {
                assert(out@ =~= old(out)@ + print_tree(t@));
            }
        },
        TreeType::AssignRef(s, r) => {
            append_str(out, s.name().as_str());
            append_str(out, " = ");
            print_into(r, out);
            proof {
                assert(out@ =~= old(out)@ + print_tree(t@));
            }
        },
        TreeType::IdentRef(s) => {
            append_str(out, s.name().as_str());
            proof {
                assert(out@ =~= old(out)@ + print_tree(t@));
            }
        },
        TreeType::ForRef(s, c, b) => {
            append_str(out, "for ");
            append_str(out, s.name().as_str());
            append_str(out, " : ");
            print_into(c, out);
            append_str(out, " ");
            print_into(b, out);
            proof {
                assert(out@ =~= old(out)@ + print_tree(t@));
            }
        },
        TreeType::FuncRef(ps, b) => {
            append_str(out, "((");
            print_sym_names(ps, out);
            append_str(out, ") => ");
            print_into(b, out);
            append_str(out, ")");
            proof {
                assert(out@ =~= old(out)@ + print_tree(t@));
            }
        },
        TreeType::IntLit(n) => {
            push_i64(out, *n);
            proof {
                assert(out@ =~= old(out)@ + print_tree(t@));
            }
        },
        TreeType::StrLit(s) => {
            append_str(out, "\"");
            append_str(out, s.as_str());
            append_str(out, "\"");
            proof {
                assert(out@ =~= old(out)@ + print_tree(t@));
            }
        },
        TreeType::Add(l, r) => {
            append_str(out, "(");
            print_into(l, out);
            append_str(out, " + ");
            print_into(r, out);
            append_str(out, ")");
            proof {
                assert(out@ =~= old(out)@ + print_tree(t@));
            }
        },
        TreeType::Sub(l, r) => {
            append_str(out, "(");
            print_into(l, out);
            append_str(out, " - ");
            print_into(r, out);
            append_str(out, ")");
            proof {
                assert(out@ =~= old(out)@ + print_tree(t@));
            }
        },
        TreeType::Mul(l, r) => {
            append_str(out, "(");
            print_into(l, out);
            append_str(out, " * ");
            print_into(r, out);
            append_str(out, ")");
            proof {
                assert(out@ =~= old(out)@ + print_tree(t@));
            }
        },
        TreeType::Div(l, r) => {
            append_str(out, "(");
            print_into(l, out);
            append_str(out, " / ");
            print_into(r, out);
            append_str(out, ")");
            proof {
                assert(out@ =~= old(out)@ + print_tree(t@));
            }
        },
        TreeType::Eq(l, r) => {
            append_str(out, "(");
            print_into(l, out);
            append_str(out, " == ");
            print_into(r, out);
            append_str(out, ")");
            proof {
                assert(out@ =~= old(out)@ + print_tree(t@));
            }
        },
        TreeType::Neq(l, r) => {
            append_str(out, "(");
            print_into(l, out);
            append_str(out, " != ");
            print_into(r, out);
            append_str(out, ")");
            proof {
                assert(out@ =~= old(out)@ + print_tree(t@));
            }
        },
        TreeType::Call(f, a) => {
            print_into(f, out);
            append_str(out, "(");
            print_args_into(a, out);
            append_str(out, ")");
            proof {
                assert(out@ =~= old(out)@ + print_tree(t@));
            }
        },
        TreeType::ListLit(v) => {
            append_str(out, "[");
            print_joined_into(v, out);
            append_str(out, "]");
            proof {
                assert(out@ =~= old(out)@ + print_tree(t@));
            }
        },
        TreeType::Tuple(v) => {
            append_str(out, "(");
            print_trailing_into(v, out);
            append_str(out, ")");
            proof {
                assert(out@ =~= old(out)@ + print_tree(t@));
            }
        },
        TreeType::Block(v) => {
            append_str(out, "{\n");
            print_lines_into(v, out);
            append_str(out, "}");
            proof {
                assert(out@ =~= old(out)@ + print_tree(t@));
            }
        },
        TreeType::If(c, t2, e) => {
            append_str(out, "if ");
            print_into(c, out);
            append_str(out, " ");
            print_into(t2, out);
            if !e.is_empty() {
                append_str(out, " else ");
                print_into(e, out);
            }
            proof {
                assert(out@ =~= old(out)@ + print_tree(t@));
            }
        },
        TreeType::While(c, b) => {
            append_str(out, "while ");
            print_into(c, out);
            append_str(out, " ");
            print_into(b, out);
            proof {
                assert(out@ =~= old(out)@ + print_tree(t@));
            }
        },
        TreeType::Error(m) => {
            append_str(out, "<error: ");
            append_str(out, m.as_str());
            append_str(out, ">");
            proof {
                assert(out@ =~= old(out)@ + print_tree(t@));
            }
        },
    }
}

fn print_args_into(a: &Tree, out: &mut Vec<char>)
    ensures
        final(out)@ == old(out)@ + print_args(a@),
    decreases *a, 1int,
{
    match &a.tree {
        TreeType::ListLit(v) => {
            print_trailing_into(v, out);
        },
        _ => {
            print_into(a, out);
        },
    }
}

fn print_names(ps: &Vec<String>, out: &mut Vec<char>)
    ensures
        final(out)@ == old(out)@ + join_comma(crate::tree::names_view(ps@)),
{
    let ghost items = crate::tree::names_view(ps@);
    let mut i: usize = 0;
    proof {
        assert(old(out)@ + join_comma(items.take(0)) =~= old(out)@);
    }
    while i < ps.len()
        invariant
            i <= ps.len(),
            items == crate::tree::names_view(ps@),
            out@ == old(out)@ + join_comma(items.take(i as int)),
        decreases ps.len() - i,
    {
        if i > 0 {
            append_str(out, ", ");
        }
        append_str(out, ps[i].as_str());
        i = i + 1;
        proof {
            assert(items[i as int - 1] == ps@[i as int - 1]@);
            assert(items.take(i as int).drop_last() =~= items.take(i as int - 1));
            assert(items.take(i as int).last() == items[i as int - 1]);
            assert(out@ =~= old(out)@ + join_comma(items.take(i as int)));
        }
    }
    proof {
        assert(items.take(ps@.len() as int) =~= items);
    }
}

fn print_sym_names(ps: &Vec<crate::symbol::SymbolRef>, out: &mut Vec<char>)
    ensures
        final(out)@ == old(out)@ + join_comma(sym_names(crate::tree::syms_view(ps@))),
{
    let ghost items = sym_names(crate::tree::syms_view(ps@));
    let mut i: usize = 0;
    proof {
        assert(old(out)@ + join_comma(items.take(0)) =~= old(out)@);
    }
    while i < ps.len()
        invariant
            i <= ps.len(),
            items == sym_names(crate::tree::syms_view(ps@)),
            out@ == old(out)@ + join_comma(items.take(i as int)),
        decreases ps.len() - i,
    {
        if i > 0 {
            append_str(out, ", ");
        }
        append_str(out, ps[i].name().as_str());
        i = i + 1;
        proof {
            assert(items[i as int - 1] == ps@[i as int - 1]@.name);
            assert(items.take(i as int).drop_last() =~= items.take(i as int - 1));
            assert(items.take(i as int).last() == items[i as int - 1]);
            assert(out@ =~= old(out)@ + join_comma(items.take(i as int)));
        }
    }
    proof {
        assert(items.take(ps@.len() as int) =~= items);
    }
}

fn print_trailing_into(v: &Vec<Tree>, out: &mut Vec<char>)
    ensures
        final(out)@ == old(out)@ + print_trailing(crate::tree::view_trees(v@)),
    decreases *v, 0int,
{
    let ghost items = crate::tree::view_trees(v@);
    let mut i: usize = 0;
    proof {
        assert(old(out)@ + print_trailing(items.take(0)) =~= old(out)@);
    }
    while i < v.len()
        invariant
            i <= v.len(),
            items == crate::tree::view_trees(v@),
            out@ == old(out)@ + print_trailing(items.take(i as int)),
        decreases v.len() - i,
    {
        print_into(&v[i], out);
        append_str(out, ", ");
        i = i + 1;
        proof {
            assert(items.take(i as int).drop_last() =~= items.take(i as int - 1));
            assert(items.take(i as int).last() == items[i as int - 1]);
            assert(out@ =~= old(out)@ + print_trailing(items.take(i as int)));
        }
    }
    proof {
        assert(items.take(v@.len() as int) =~= items);
    }
}

fn print_joined_into(v: &Vec<Tree>, out: &mut Vec<char>)
    ensures
        final(out)@ == old(out)@ + print_joined(crate::tree::view_trees(v@)),
    decreases *v, 0int,
{
    let ghost items = crate::tree::view_trees(v@);
    let mut i: usize = 0;
    proof {
        assert(old(out)@ + print_joined(items.take(0)) =~= old(out)@);
    }
    while i < v.len()
        invariant
            i <= v.len(),
            items == crate::tree::view_trees(v@),
            out@ == old(out)@ + print_joined(items.take(i as int)),
        decreases v.len() - i,
    {
        if i > 0 {
            append_str(out, ", ");
        }
        print_into(&v[i], out);
        i = i + 1;
        proof {
            assert(items.take(i as int).drop_last() =~= items.take(i as int - 1));
            assert(items.take(i as int).last() == items[i as int - 1]);
            assert(out@ =~= old(out)@ + print_joined(items.take(i as int)));
        }
    }
    proof {
        assert(items.take(v@.len() as int) =~= items);
    }
}

fn print_lines_into(v: &Vec<Tree>, out: &mut Vec<char>)
    ensures
        final(out)@ == old(out)@ + print_lines(crate::tree::view_trees(v@)),
    decreases *v, 0int,
{
    let ghost items = crate::tree::view_trees(v@);
    let mut i: usize = 0;
    proof {
        assert(old(out)@ + print_lines(items.take(0)) =~= old(out)@);
    }
    while i < v.len()
        invariant
            i <= v.len(),
            items == crate::tree::view_trees(v@),
            out@ == old(out)@ + print_lines(items.take(i as int)),
        decreases v.len() - i,
    {
        print_into(&v[i], out);
        append_str(out, "\n");
        i = i + 1;
        proof {
            assert(items.take(i as int).drop_last() =~= items.take(i as int - 1));
            assert(items.take(i as int).last() == items[i as int - 1]);
            assert(out@ =~= old(out)@ + print_lines(items.take(i as int)));
        }
    }
    proof {
        assert(items.take(v@.len() as int) =~= items);
    }
}

impl Tree {
    /// The printed source form of the tree.
    pub fn print(&self) -> (r: String)
        ensures
            r@ == print_tree(self@),
    {
        let mut out: Vec<char> = Vec::new();
        print_into(self, &mut out);
        proof {
            assert(out@ =~= print_tree(self@));
        }
        string_of(&out)
    }
}

} // verus!
