//! Source coordinates carried by tokens, tree nodes and diagnostics.

use vstd::prelude::*;

use crate::text::{chars_of, push_char, string_of};

verus! {

/// Mathematical model of a `Position`.
pub struct PosV {
    pub file: Seq<char>,
    pub line: nat,
    pub col: nat,
}

/// A source coordinate: file label, zero-based line and column.
/// The end of input is marked by `line == col == usize::MAX`.
#[derive(Debug)]
pub struct Position {
    pub filename: String,
    pub line: usize,
    pub col: usize,
}

impl View for Position {
    type V = PosV;

    open spec fn view(&self) -> PosV {
        PosV { file: self.filename@, line: self.line as nat, col: self.col as nat }
    }
}

impl Clone for Position {
    fn clone(&self) -> (r: Self)
        ensures
            r@ == self@,
    {
        Position { filename: self.filename.clone(), line: self.line, col: self.col }
    }
}

/// Drops characters until `k` newline characters have been consumed
/// (or the text ends).
pub open spec fn skip_lines(s: Seq<char>, k: nat) -> Seq<char>
    decreases s.len(),
{
    if k == 0 || s.len() == 0 {
        s
    } else if s[0] == '\n' {
        skip_lines(s.drop_first(), (k - 1) as nat)
    } else {
        skip_lines(s.drop_first(), k)
    }
}

/// Length of the prefix of `s` before its first newline.
pub open spec fn line_len(s: Seq<char>) -> nat
    decreases s.len(),
{
    if s.len() == 0 || s[0] == '\n' {
        0
    } else {
        1 + line_len(s.drop_first())
    }
}

/// `n` tilde characters, used to draw the column cursor.
pub open spec fn tildes(n: nat) -> Seq<char>
    decreases n,
{
    if n == 0 {
        Seq::<char>::empty()
    } else {
        tildes((n - 1) as nat).push('~')
    }
}

/// What `pos_string` returns: the source line the position points into,
/// then a cursor line of tildes ending in a caret under the column.
pub open spec fn pos_string_spec(p: PosV, text: Seq<char>) -> Seq<char> {
    let rest = skip_lines(text, p.line);
    let len = line_len(rest);
    let col = if p.col < len {
        p.col
    } else {
        len
    };
    rest.take(len as int) + seq!['\n'] + tildes(col) + seq!['^']
}

impl Position {
    /// A fresh position at the start of the named source.
    pub fn new(filename: &str) -> (r: Position)
        ensures
            r@.file == filename@,
            r@.line == 0,
            r@.col == 0,
    {
        Position { filename: filename.to_owned(), line: 0, col: 0 }
    }

    /// The position used for end-of-input diagnostics.
    pub fn eof() -> (r: Position)
        ensures
            r@.file == Seq::<char>::empty(),
            r@.line == usize::MAX,
            r@.col == usize::MAX,
    {
        Position { filename: String::new(), line: usize::MAX, col: usize::MAX }
    }

    /// Moves to the start of the next line.
    pub fn next_line(&mut self)
        requires
            old(self)@.line < usize::MAX,
        ensures
            final(self)@.file == old(self)@.file,
            final(self)@.line == old(self)@.line + 1,
            final(self)@.col == 0,
    {
        self.line = self.line + 1;
        self.col = 0;
    }

    /// Moves one column to the right on the current line.
    pub fn next_col(&mut self)
        requires
            old(self)@.col < usize::MAX,
        ensures
            final(self)@.file == old(self)@.file,
            final(self)@.line == old(self)@.line,
            final(self)@.col == old(self)@.col + 1,
    {
        self.col = self.col + 1;
    }

    /// Whether this is the end-of-input marker.
    pub fn is_eof(&self) -> (r: bool)
        ensures
            r == (self@.line == usize::MAX),
    {
        self.line == usize::MAX
    }

    /// Renders the line this position points into, with a cursor line
    /// underneath marking the column.
    pub fn pos_string(&self, text: &str) -> (r: String)
        ensures
            r@ == pos_string_spec(self@, text@),
    {
        let chars = chars_of(text);
        let mut i: usize = 0;
        let mut lines: usize = self.line;
        proof {
            assert(chars@.skip(0) =~= chars@);
        }
        while lines != 0 && i < chars.len()
            invariant
                i <= chars.len(),
                skip_lines(chars@, self.line as nat) == skip_lines(
                    chars@.skip(i as int),
                    lines as nat,
                ),
                lines <= self.line,
            decreases chars.len() - i,
        {
            proof {
                assert(chars@.skip(i as int).drop_first() =~= chars@.skip(i as int + 1));
            }
            if chars[i] == '\n' {
                lines = lines - 1;
            }
            i = i + 1;
        }
        proof {
            if lines != 0 {
                assert(chars@.skip(i as int) =~= Seq::<char>::empty());
            }
            assert(skip_lines(chars@, self.line as nat) =~= chars@.skip(i as int));
        }
        let ghost rest = skip_lines(chars@, self.line as nat);
        // copy the current line up to its newline
        let mut out: Vec<char> = Vec::new();
        let mut j: usize = i;
        while j < chars.len() && chars[j] != '\n'
            invariant
                i <= j <= chars.len(),
                rest == chars@.skip(i as int),
                forall|k: int| i <= k < j ==> chars@[k] != '\n',
                out@ == chars@.subrange(i as int, j as int),
            decreases chars.len() - j,
        {
            out.push(chars[j]);
            proof {
                assert(chars@.subrange(i as int, j as int + 1) =~= chars@.subrange(
                    i as int,
                    j as int,
                ).push(chars@[j as int]));
            }
            j = j + 1;
        }
        proof {
            lemma_line_len(chars@, i as int, j as int);
            assert(out@ =~= rest.take(line_len(rest) as int));
        }
        let len = j - i;
        let col = if self.col < len {
            self.col
        } else {
            len
        };
        out.push('\n');
        let mut k: usize = 0;
        let ghost mid = out@;
        proof {
            assert(mid + tildes(0) =~= mid);
        }
        while k < col
            invariant
                k <= col,
                out@ == mid + tildes(k as nat),
            decreases col - k,
        {
            out.push('~');
            k = k + 1;
            proof {
                assert(mid + tildes(k as nat) =~= (mid + tildes((k - 1) as nat)).push('~'));
            }
        }
        out.push('^');
        proof {
            assert(out@ =~= pos_string_spec(self@, text@));
        }
        string_of(&out)
    }
}

/// Relates the scan for the end of the current line to `line_len`.
proof fn lemma_line_len(s: Seq<char>, i: int, j: int)
    requires
        0 <= i <= j <= s.len(),
        forall|k: int| i <= k < j ==> s[k] != '\n',
        j == s.len() || s[j] == '\n',
    ensures
        line_len(s.skip(i)) == j - i,
    decreases j - i,
{
    if i < j {
        assert(s.skip(i).drop_first() =~= s.skip(i + 1));
        lemma_line_len(s, i + 1, j);
        assert(s.skip(i)[0] == s[i]);
    } else {
        if j < s.len() {
            assert(s.skip(i)[0] == s[j]);
        }
    }
}

} // verus!
