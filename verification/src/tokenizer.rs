//! The lexer: turns source text into a sequence of positioned tokens.
//! One character of look-ahead resolves the two-character tokens
//! `==`, `!=` and `=>`. Whitespace advances the position and is not
//! emitted; an unterminated string yields an error token.

use vstd::prelude::*;

use crate::position::Position;
use crate::text::{chars_of, string_of};
use crate::token::{TokV, Token, TokenType, TokenV};

verus! {

/// ASCII decimal digit.
pub open spec fn is_digit_c(c: char) -> bool {
    '0' as u32 <= c as u32 && c as u32 <= '9' as u32
}

/// ASCII letter.
pub open spec fn is_alpha_c(c: char) -> bool {
    ('a' as u32 <= c as u32 && c as u32 <= 'z' as u32) || ('A' as u32 <= c as u32 && c as u32
        <= 'Z' as u32)
}

/// Identifier continuation character: letter, digit or underscore.
pub open spec fn is_ident_c(c: char) -> bool {
    is_alpha_c(c) || is_digit_c(c) || c == '_'
}

/// Horizontal whitespace; the newline is handled separately.
pub open spec fn is_space_c(c: char) -> bool {
    c == ' ' || c == '\t' || c == '\r'
}

/// End of the digit run starting at `j`.
pub open spec fn digits_end(s: Seq<char>, j: int) -> int
    decreases s.len() - j,
{
    if 0 <= j < s.len() && is_digit_c(s[j]) {
        digits_end(s, j + 1)
    } else {
        j
    }
}

/// End of the numeric literal starting at `j`: a digit run, then at most
/// one dot followed by another digit run.
pub open spec fn num_end(s: Seq<char>, j: int) -> int {
    let d = digits_end(s, j);
    if d < s.len() && s[d] == '.' && d + 1 < s.len() && is_digit_c(s[d + 1]) {
        digits_end(s, d + 1)
    } else {
        d
    }
}

/// End of the identifier-character run starting at `j`.
pub open spec fn ident_end(s: Seq<char>, j: int) -> int
    decreases s.len() - j,
{
    if 0 <= j < s.len() && is_ident_c(s[j]) {
        ident_end(s, j + 1)
    } else {
        j
    }
}

/// Index of the closing quote at or after `j`, or the text length if the
/// string is unterminated.
pub open spec fn quote_end(s: Seq<char>, j: int) -> int
    decreases s.len() - j,
{
    if 0 <= j < s.len() {
        if s[j] == '"' {
            j
        } else {
            quote_end(s, j + 1)
        }
    } else {
        s.len() as int
    }
}

/// Line and column after consuming `s[i..j]`, starting at (line, col).
pub open spec fn adv_pos(s: Seq<char>, i: int, j: int, line: nat, col: nat) -> (nat, nat)
    decreases j - i,
{
    if i < j && 0 <= i < s.len() {
        if s[i] == '\n' {
            adv_pos(s, i + 1, j, line + 1, 0)
        } else {
            adv_pos(s, i + 1, j, line, (col + 1) as nat)
        }
    } else {
        (line, col)
    }
}

/// The token kind of an identifier-character run: a keyword where the
/// whole run matches one, an identifier otherwise.
pub open spec fn word_token(w: Seq<char>) -> TokV {
    if w == "if"@ {
        TokV::If
    } else if w == "else"@ {
        TokV::Else
    } else if w == "let"@ {
        TokV::Let
    } else if w == "while"@ {
        TokV::While
    } else if w == "for"@ {
        TokV::For
    } else {
        TokV::Ident(w)
    }
}

/// The token kind of a single punctuation character (those that need no
/// look-ahead).
pub open spec fn punct_token(c: char) -> TokV {
    if c == '+' {
        TokV::Plus
    } else if c == '-' {
        TokV::Minus
    } else if c == '*' {
        TokV::Star
    } else if c == '/' {
        TokV::Slash
    } else if c == ',' {
        TokV::Comma
    } else if c == ':' {
        TokV::Colon
    } else if c == '(' {
        TokV::LeftPar
    } else if c == ')' {
        TokV::RightPar
    } else if c == '{' {
        TokV::LeftBrace
    } else if c == '}' {
        TokV::RightBrace
    } else if c == '[' {
        TokV::LeftBracket
    } else if c == ']' {
        TokV::RightBracket
    } else {
        TokV::Error
    }
}

pub open spec fn is_punct_c(c: char) -> bool {
    c == '+' || c == '-' || c == '*' || c == '/' || c == ',' || c == ':' || c == '(' || c == ')'
        || c == '{' || c == '}' || c == '[' || c == ']'
}

/// The tokens of `s[i..]`, lexing from (line, col); `file` labels every
/// token's position.
pub open spec fn sp_lex(s: Seq<char>, i: int, line: nat, col: nat, file: Seq<char>) -> Seq<TokenV>
    decreases s.len() - i,
{
    if !(0 <= i < s.len()) {
        Seq::<TokenV>::empty()
    } else {
        let c = s[i];
        let here = crate::position::PosV { file, line, col };
        if c == '\n' {
            sp_lex(s, i + 1, line + 1, 0, file)
        } else if is_space_c(c) {
            sp_lex(s, i + 1, line, (col + 1) as nat, file)
        } else if c == '=' {
            if i + 1 < s.len() && s[i + 1] == '=' {
                seq![TokenV { token: TokV::Eq, pos: here }] + sp_lex(
                    s,
                    i + 2,
                    line,
                    (col + 2) as nat,
                    file,
                )
            } else if i + 1 < s.len() && s[i + 1] == '>' {
                seq![TokenV { token: TokV::FatArrow, pos: here }] + sp_lex(
                    s,
                    i + 2,
                    line,
                    (col + 2) as nat,
                    file,
                )
            } else {
                seq![TokenV { token: TokV::Assign, pos: here }] + sp_lex(
                    s,
                    i + 1,
                    line,
                    (col + 1) as nat,
                    file,
                )
            }
        } else if c == '!' {
            if i + 1 < s.len() && s[i + 1] == '=' {
                seq![TokenV { token: TokV::Neq, pos: here }] + sp_lex(
                    s,
                    i + 2,
                    line,
                    (col + 2) as nat,
                    file,
                )
            } else {
                seq![TokenV { token: TokV::Not, pos: here }] + sp_lex(
                    s,
                    i + 1,
                    line,
                    (col + 1) as nat,
                    file,
                )
            }
        } else if c == '"' {
            let q0 = quote_end(s, i + 1);
            let q = if q0 < i + 1 {
                i + 1
            } else if q0 > s.len() {
                s.len() as int
            } else {
                q0
            };
            if q < s.len() {
                let lc = adv_pos(s, i, q + 1, line, col);
                seq![TokenV { token: TokV::StrLit(s.subrange(i + 1, q)), pos: here }] + sp_lex(
                    s,
                    q + 1,
                    lc.0,
                    lc.1,
                    file,
                )
            } else {
                seq![TokenV { token: TokV::Error, pos: here }]
            }
        } else if is_digit_c(c) {
            let e0 = num_end(s, i);
            let e = if e0 < i + 1 {
                i + 1
            } else if e0 > s.len() {
                s.len() as int
            } else {
                e0
            };
            seq![TokenV { token: TokV::NumLit(s.subrange(i, e)), pos: here }] + sp_lex(
                s,
                e,
                line,
                (col + (e - i)) as nat,
                file,
            )
        } else if is_alpha_c(c) || c == '_' {
            let e0 = ident_end(s, i);
            let e = if e0 < i + 1 {
                i + 1
            } else if e0 > s.len() {
                s.len() as int
            } else {
                e0
            };
            seq![TokenV { token: word_token(s.subrange(i, e)), pos: here }] + sp_lex(
                s,
                e,
                line,
                (col + (e - i)) as nat,
                file,
            )
        } else {
            seq![TokenV { token: punct_token(c), pos: here }] + sp_lex(
                s,
                i + 1,
                line,
                (col + 1) as nat,
                file,
            )
        }
    }
}

/// The views of a sequence of tokens.
pub open spec fn tokens_view(v: Seq<Token>) -> Seq<TokenV> {
    v.map_values(|t: Token| t@)
}

/// What `Tokenizer::tokenize` returns for a given source text.
pub open spec fn sp_tokenize(s: Seq<char>) -> Seq<TokenV> {
    sp_lex(s, 0, 0, 0, "string... "@)
}

/// The lexer's working state: the characters of the source, the cursor,
/// and the position of the cursor.
pub struct Tokenizer {
    pub chars: Vec<char>,
    pub i: usize,
    pub pos: Position,
}

fn exec_is_digit(c: char) -> (r: bool)
    ensures
        r == is_digit_c(c),
{
    '0' as u32 <= c as u32 && c as u32 <= '9' as u32
}

fn exec_is_ident(c: char) -> (r: bool)
    ensures
        r == is_ident_c(c),
{
    ('a' as u32 <= c as u32 && c as u32 <= 'z' as u32) || ('A' as u32 <= c as u32 && c as u32
        <= 'Z' as u32) || ('0' as u32 <= c as u32 && c as u32 <= '9' as u32) || c == '_'
}

fn exec_is_alpha(c: char) -> (r: bool)
    ensures
        r == is_alpha_c(c),
{
    ('a' as u32 <= c as u32 && c as u32 <= 'z' as u32) || ('A' as u32 <= c as u32 && c as u32
        <= 'Z' as u32)
}

fn scan_digits(chars: &Vec<char>, from: usize) -> (e: usize)
    requires
        from <= chars@.len(),
    ensures
        e == digits_end(chars@, from as int),
        from <= e <= chars@.len(),
{
    let mut j = from;
    while j < chars.len() && exec_is_digit(chars[j])
        invariant
            from <= j <= chars@.len(),
            digits_end(chars@, from as int) == digits_end(chars@, j as int),
        decreases chars@.len() - j,
    {
        j = j + 1;
    }
    j
}

fn scan_ident(chars: &Vec<char>, from: usize) -> (e: usize)
    requires
        from <= chars@.len(),
    ensures
        e == ident_end(chars@, from as int),
        from <= e <= chars@.len(),
{
    let mut j = from;
    while j < chars.len() && exec_is_ident(chars[j])
        invariant
            from <= j <= chars@.len(),
            ident_end(chars@, from as int) == ident_end(chars@, j as int),
        decreases chars@.len() - j,
    {
        j = j + 1;
    }
    j
}

fn scan_quote(chars: &Vec<char>, from: usize) -> (e: usize)
    requires
        from <= chars@.len(),
    ensures
        e == quote_end(chars@, from as int),
        from <= e <= chars@.len(),
        e < chars@.len() ==> chars@[e as int] == '"',
        forall|k: int| from <= k < e ==> chars@[k] != '"',
{
    let mut j = from;
    while j < chars.len() && chars[j] != '"'
        invariant
            from <= j <= chars@.len(),
            quote_end(chars@, from as int) == quote_end(chars@, j as int),
            forall|k: int| from <= k < j ==> chars@[k] != '"',
        decreases chars@.len() - j,
    {
        j = j + 1;
    }
    j
}

/// Copies `chars[from..to]` into a fresh string.
fn substring(chars: &Vec<char>, from: usize, to: usize) -> (r: String)
    requires
        from <= to <= chars@.len(),
    ensures
        r@ == chars@.subrange(from as int, to as int),
{
    let mut v: Vec<char> = Vec::new();
    let mut j = from;
    while j < to
        invariant
            from <= j <= to <= chars@.len(),
            v@ == chars@.subrange(from as int, j as int),
        decreases to - j,
    {
        v.push(chars[j]);
        j = j + 1;
        proof {
            assert(chars@.subrange(from as int, j as int) =~= chars@.subrange(
                from as int,
                j as int - 1,
            ).push(chars@[j as int - 1]));
        }
    }
    string_of(&v)
}

/// Whether the characters of `v` spell exactly `kw`.
fn word_is(v: &String, kw: &str) -> (r: bool)
    ensures
        r == (v@ == kw@),
{
    let kc = chars_of(kw);
    let vc = chars_of(v.as_str());
    if vc.len() != kc.len() {
        proof {
            assert(v@ != kw@);
        }
        return false;
    }
    let mut j: usize = 0;
    while j < vc.len()
        invariant
            j <= vc.len(),
            vc@.len() == kc@.len(),
            vc@ == v@,
            kc@ == kw@,
            forall|k: int| 0 <= k < j ==> vc@[k] == kc@[k],
        decreases vc.len() - j,
    {
        if vc[j] != kc[j] {
            proof {
                assert(v@[j as int] != kw@[j as int]);
            }
            return false;
        }
        j = j + 1;
    }
    proof {
        assert(v@ =~= kw@);
    }
    true
}

/// The token for an identifier-character run: a keyword or an identifier.
fn word_token_of(w: String) -> (r: TokenType)
    ensures
        r@ == word_token(w@),
{
    if word_is(&w, "if") {
        TokenType::If
    } else if word_is(&w, "else") {
        TokenType::Else
    } else if word_is(&w, "let") {
        TokenType::Let
    } else if word_is(&w, "while") {
        TokenType::While
    } else if word_is(&w, "for") {
        TokenType::For
    } else {
        TokenType::Ident(w)
    }
}

impl Tokenizer {
    /// Lexes the whole source into tokens. Every token's position names
    /// the same source label and the zero-based line and column where
    /// the token starts.
    pub fn tokenize(input: &str) -> (r: Vec<Token>)
        ensures
            tokens_view(r@) == sp_tokenize(input@),
    {
        let chars = chars_of(input);
        let fname: String = "string... ".to_owned();
        let mut toks: Vec<Token> = Vec::new();
        let mut i: usize = 0;
        let mut line: usize = 0;
        let mut col: usize = 0;
        let ghost s = chars@;
        proof {
            assert(tokens_view(toks@) =~= Seq::<TokenV>::empty());
        }
        while i < chars.len()
            invariant
                i <= chars@.len(),
                s == chars@,
                fname@ == "string... "@,
                input@ == s,
                line <= i,
                col <= i,
                sp_tokenize(s) == tokens_view(toks@) + sp_lex(
                    s,
                    i as int,
                    line as nat,
                    col as nat,
                    fname@,
                ),
            decreases chars@.len() - i,
        {
            let ghost pre_toks = tokens_view(toks@);
            let ghost oi = i as int;
            let ghost ol = line as nat;
            let ghost oc = col as nat;
            let c = chars[i];
            let here = Position { filename: fname.clone(), line, col };
            if c == '\n' {
                i = i + 1;
                line = line + 1;
                col = 0;
            } else if c == ' ' || c == '\t' || c == '\r' {
                i = i + 1;
                col = col + 1;
            } else if c == '=' {
                if i + 1 < chars.len() && chars[i + 1] == '=' {
                    toks.push(TokenType::Eq.with_pos(here));
                    i = i + 2;
                    col = col + 2;
                } else if i + 1 < chars.len() && chars[i + 1] == '>' {
                    toks.push(TokenType::FatArrow.with_pos(here));
                    i = i + 2;
                    col = col + 2;
                } else {
                    toks.push(TokenType::Assign.with_pos(here));
                    i = i + 1;
                    col = col + 1;
                }
                proof {
                    assert(tokens_view(toks@) =~= pre_toks.push(toks@.last()@));
                }
            } else if c == '!' {
                if i + 1 < chars.len() && chars[i + 1] == '=' {
                    toks.push(TokenType::Neq.with_pos(here));
                    i = i + 2;
                    col = col + 2;
                } else {
                    toks.push(TokenType::Not.with_pos(here));
                    i = i + 1;
                    col = col + 1;
                }
                proof {
                    assert(tokens_view(toks@) =~= pre_toks.push(toks@.last()@));
                }
            } else if c == '"' {
                let q = scan_quote(&chars, i + 1);
                proof {
                    lemma_quote_end_bounds(s, i as int + 1);
                }
                if q < chars.len() {
                    let lit = substring(&chars, i + 1, q);
                    toks.push(TokenType::StrLit(lit).with_pos(here));
                    proof {
                        assert(tokens_view(toks@) =~= pre_toks.push(toks@.last()@));
                        lemma_adv_pos_bounds(s, i as int, q + 1, line as nat, col as nat);
                    }
                    let (l2, c2) = advance_over(&chars, i, q + 1, line, col);
                    i = q + 1;
                    line = l2;
                    col = c2;
                } else {
                    toks.push(TokenType::Error.with_pos(here));
                    proof {
                        assert(tokens_view(toks@) =~= pre_toks.push(toks@.last()@));
                        assert(sp_lex(s, s.len() as int, 0, 0, fname@) =~= Seq::<
                            TokenV,
                        >::empty());
                    }
                    i = chars.len();
                    line = 0;
                    col = 0;
                }
            } else if exec_is_digit(c) {
                let d = scan_digits(&chars, i);
                let e = if d < chars.len() && chars[d] == '.' && d + 1 < chars.len()
                    && exec_is_digit(chars[d + 1]) {
                    scan_digits(&chars, d + 1)
                } else {
                    d
                };
                let lit = substring(&chars, i, e);
                toks.push(TokenType::NumLit(lit).with_pos(here));
                proof {
                    assert(tokens_view(toks@) =~= pre_toks.push(toks@.last()@));
                    lemma_digits_end_bounds(s, i as int + 1);
                    assert(digits_end(s, i as int) == digits_end(s, i as int + 1));
                }
                col = col + (e - i);
                i = e;
            } else if exec_is_alpha(c) || c == '_' {
                let e = scan_ident(&chars, i);
                let word = substring(&chars, i, e);
                toks.push(word_token_of(word).with_pos(here));
                proof {
                    assert(tokens_view(toks@) =~= pre_toks.push(toks@.last()@));
                    lemma_ident_end_bounds(s, i as int + 1);
                    assert(ident_end(s, i as int) == ident_end(s, i as int + 1));
                }
                col = col + (e - i);
                i = e;
            } else {
                let tok = if c == '+' {
                    TokenType::Plus
                } else if c == '-' {
                    TokenType::Minus
                } else if c == '*' {
                    TokenType::Star
                } else if c == '/' {
                    TokenType::Slash
                } else if c == ',' {
                    TokenType::Comma
                } else if c == ':' {
                    TokenType::Colon
                } else if c == '(' {
                    TokenType::LeftPar
                } else if c == ')' {
                    TokenType::RightPar
                } else if c == '{' {
                    TokenType::LeftBrace
                } else if c == '}' {
                    TokenType::RightBrace
                } else if c == '[' {
                    TokenType::LeftBracket
                } else if c == ']' {
                    TokenType::RightBracket
                } else {
                    TokenType::Error
                };
                toks.push(tok.with_pos(here));
                i = i + 1;
                col = col + 1;
                proof {
                    assert(tokens_view(toks@) =~= pre_toks.push(toks@.last()@));
                }
            }
            proof {
                assert(tokens_view(toks@) + sp_lex(s, i as int, line as nat, col as nat, fname@)
                    =~= pre_toks + sp_lex(s, oi, ol, oc, fname@));
            }
        }
        proof {
            assert(sp_lex(s, i as int, line as nat, col as nat, fname@) =~= Seq::<TokenV>::empty());
            assert(tokens_view(toks@) + sp_lex(s, i as int, line as nat, col as nat, fname@)
                =~= tokens_view(toks@));
        }
        toks
    }
}

/// Walks `chars[i..j]` updating line and column as the lexer does.
fn advance_over(chars: &Vec<char>, i: usize, j: usize, line: usize, col: usize) -> (r: (
    usize,
    usize,
))
    requires
        i <= j <= chars@.len(),
        line <= i,
        col <= i,
    ensures
        (r.0 as nat, r.1 as nat) == adv_pos(chars@, i as int, j as int, line as nat, col as nat),
        r.0 <= j,
        r.1 <= j,
{
    let mut k = i;
    let mut l = line;
    let mut c = col;
    while k < j
        invariant
            i <= k <= j <= chars@.len(),
            l <= k,
            c <= k,
            adv_pos(chars@, i as int, j as int, line as nat, col as nat) == adv_pos(
                chars@,
                k as int,
                j as int,
                l as nat,
                c as nat,
            ),
        decreases j - k,
    {
        if chars[k] == '\n' {
            l = l + 1;
            c = 0;
        } else {
            c = c + 1;
        }
        k = k + 1;
    }
    (l, c)
}

/// The closing-quote scan never moves backwards.
proof fn lemma_quote_end_bounds(s: Seq<char>, i: int)
    requires
        0 <= i <= s.len(),
    ensures
        i <= quote_end(s, i) <= s.len(),
    decreases s.len() - i,
{
    if 0 <= i < s.len() && s[i] != '"' {
        lemma_quote_end_bounds(s, i + 1);
    }
}

/// The digit run starting at a digit moves the cursor forward.
proof fn lemma_digits_end_bounds(s: Seq<char>, i: int)
    requires
        0 <= i <= s.len(),
    ensures
        i <= digits_end(s, i) <= s.len(),
    decreases s.len() - i,
{
    if 0 <= i < s.len() && is_digit_c(s[i]) {
        lemma_digits_end_bounds(s, i + 1);
    }
}

proof fn lemma_ident_end_bounds(s: Seq<char>, i: int)
    requires
        0 <= i <= s.len(),
    ensures
        i <= ident_end(s, i) <= s.len(),
    decreases s.len() - i,
{
    if 0 <= i < s.len() && is_ident_c(s[i]) {
        lemma_ident_end_bounds(s, i + 1);
    }
}

/// Advancing over a range keeps line and column at most the end index.
proof fn lemma_adv_pos_bounds(s: Seq<char>, i: int, j: int, line: nat, col: nat)
    requires
        0 <= i <= j,
        line <= i,
        col <= i,
    ensures
        adv_pos(s, i, j, line, col).0 <= j,
        adv_pos(s, i, j, line, col).1 <= j,
    decreases j - i,
{
    if i < j && 0 <= i < s.len() {
        if s[i] == '\n' {
            lemma_adv_pos_bounds(s, i + 1, j, line + 1, 0);
        } else {
            lemma_adv_pos_bounds(s, i + 1, j, line, (col + 1) as nat);
        }
    }
}

} // verus!
