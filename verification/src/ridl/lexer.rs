//! Splits RIDL source text into tokens. Whitespace, `//` line comments and
//! `/* */` block comments separate tokens and are dropped.

use vstd::prelude::*;

verus! {

/// The kind of a token.
#[derive(Clone, Copy, PartialEq, Eq, Structural, Debug)]
pub enum TokKind {
    /// An identifier or keyword: a letter or `_`, then letters, digits or `_`.
    Word,
    /// An integer literal: an optional `-`, then digits.
    Int,
    /// A decimal literal: an integer literal, `.`, and digits.
    Float,
    /// A string literal in double quotes, with `\` escapes.
    Str,
    /// A single punctuation character.
    Punct(char),
    /// `->`.
    Arrow,
}

/// A token and its place in the source: characters `start` to `end`.
#[derive(Clone, Copy, PartialEq, Eq, Structural, Debug)]
pub struct Token {
    pub kind: TokKind,
    pub start: usize,
    pub end: usize,
}

pub open spec fn is_ws(c: char) -> bool {
    c == ' ' || c == '\t' || c == '\n' || c == '\r'
}

pub open spec fn is_alpha(c: char) -> bool {
    ('a' <= c <= 'z') || ('A' <= c <= 'Z') || c == '_'
}

pub open spec fn is_digit(c: char) -> bool {
    '0' <= c <= '9'
}

pub open spec fn is_ident_char(c: char) -> bool {
    is_alpha(c) || is_digit(c)
}

pub open spec fn is_punct(c: char) -> bool {
    c == '{' || c == '}' || c == '(' || c == ')' || c == '<' || c == '>' || c == ',' || c == ':'
        || c == ';' || c == '=' || c == '|' || c == '?' || c == '@' || c == '.' || c == '*'
}

/// The end of the run of identifier characters that starts at `i`.
pub open spec fn word_end(s: Seq<char>, i: int) -> int
    decreases s.len() - i,
{
    if 0 <= i < s.len() && is_ident_char(s[i]) {
        word_end(s, i + 1)
    } else {
        i
    }
}

/// The end of the run of digits that starts at `i`.
pub open spec fn digits_end(s: Seq<char>, i: int) -> int
    decreases s.len() - i,
{
    if 0 <= i < s.len() && is_digit(s[i]) {
        digits_end(s, i + 1)
    } else {
        i
    }
}

/// The position of the first newline at or after `i`, or the end.
pub open spec fn line_end(s: Seq<char>, i: int) -> int
    decreases s.len() - i,
{
    if 0 <= i < s.len() && s[i] != '\n' {
        line_end(s, i + 1)
    } else {
        i
    }
}

/// The position just past the first `*/` at or after `i`, if there is one.
pub open spec fn block_comment_end(s: Seq<char>, i: int) -> Option<int>
    decreases s.len() - i,
{
    if 0 <= i && i + 1 < s.len() {
        if s[i] == '*' && s[i + 1] == '/' {
            Some(i + 2)
        } else {
            block_comment_end(s, i + 1)
        }
    } else {
        None
    }
}

/// The position just past the closing quote of a string literal whose body
/// starts at `i`; a newline or the end before the quote leaves it open.
pub open spec fn string_end(s: Seq<char>, i: int) -> Option<int>
    decreases s.len() - i,
{
    if 0 <= i < s.len() {
        if s[i] == '"' {
            Some(i + 1)
        } else if s[i] == '\n' {
            None
        } else if s[i] == '\\' {
            if i + 1 < s.len() {
                string_end(s, i + 2)
            } else {
                None
            }
        } else {
            string_end(s, i + 1)
        }
    } else {
        None
    }
}

/// The end of a number whose digits start at `i`, and whether it has a
/// fraction.
pub open spec fn number_end(s: Seq<char>, i: int) -> (int, bool) {
    let d = digits_end(s, i);
    if 0 <= d && d + 1 < s.len() && s[d] == '.' && is_digit(s[d + 1]) {
        (digits_end(s, d + 1), true)
    } else {
        (d, false)
    }
}

/// The token that starts at `i` (not whitespace or a comment), if any.
pub open spec fn token_at(s: Seq<char>, i: int) -> Option<Token> {
    if 0 <= i < s.len() && i < usize::MAX {
        let c = s[i];
        if is_alpha(c) {
            Some(Token { kind: TokKind::Word, start: i as usize, end: word_end(s, i + 1) as usize })
        } else if is_digit(c) || (c == '-' && i + 1 < s.len() && is_digit(s[i + 1])) {
            let from = if c == '-' { i + 1 } else { i };
            let (e, frac) = number_end(s, from);
            Some(
                Token {
                    kind: if frac { TokKind::Float } else { TokKind::Int },
                    start: i as usize,
                    end: e as usize,
                },
            )
        } else if c == '-' && i + 1 < s.len() && s[i + 1] == '>' {
            Some(Token { kind: TokKind::Arrow, start: i as usize, end: (i + 2) as usize })
        } else if c == '"' {
            match string_end(s, i + 1) {
                Some(e) => Some(Token { kind: TokKind::Str, start: i as usize, end: e as usize }),
                None => None,
            }
        } else if is_punct(c) {
            Some(Token { kind: TokKind::Punct(c), start: i as usize, end: (i + 1) as usize })
        } else {
            None
        }
    } else {
        None
    }
}

/// The tokens of `s` from position `i` on, or `None` when some character
/// starts no token (an unknown character, an open string or comment).
pub open spec fn lex_from(s: Seq<char>, i: int) -> Option<Seq<Token>>
    decreases s.len() - i,
{
    if i < 0 || i >= s.len() {
        Some(Seq::empty())
    } else if is_ws(s[i]) {
        lex_from(s, i + 1)
    } else if s[i] == '/' && i + 1 < s.len() && s[i + 1] == '/' {
        let e = line_end(s, i + 2);
        if i < e <= s.len() {
            lex_from(s, e)
        } else {
            None
        }
    } else if s[i] == '/' && i + 1 < s.len() && s[i + 1] == '*' {
        match block_comment_end(s, i + 2) {
            Some(e) => if i < e <= s.len() {
                lex_from(s, e)
            } else {
                None
            },
            None => None,
        }
    } else {
        match token_at(s, i) {
            Some(tok) => if i < tok.end <= s.len() {
                match lex_from(s, tok.end as int) {
                    Some(rest) => Some(seq![tok] + rest),
                    None => None,
                }
            } else {
                None
            },
            None => None,
        }
    }
}

/// The tokens of `s`.
pub open spec fn spec_lex(s: Seq<char>) -> Option<Seq<Token>> {
    lex_from(s, 0)
}

/// The tokens of `s` from position `i` on, up to the first character that
/// starts no token (an unknown character, an open string or comment).
pub open spec fn lex_prefix_from(s: Seq<char>, i: int) -> Seq<Token>
    decreases s.len() - i,
{
    if i < 0 || i >= s.len() {
        Seq::empty()
    } else if is_ws(s[i]) {
        lex_prefix_from(s, i + 1)
    } else if s[i] == '/' && i + 1 < s.len() && s[i + 1] == '/' {
        let e = line_end(s, i + 2);
        if i < e <= s.len() {
            lex_prefix_from(s, e)
        } else {
            Seq::empty()
        }
    } else if s[i] == '/' && i + 1 < s.len() && s[i + 1] == '*' {
        match block_comment_end(s, i + 2) {
            Some(e) => if i < e <= s.len() {
                lex_prefix_from(s, e)
            } else {
                Seq::empty()
            },
            None => Seq::empty(),
        }
    } else {
        match token_at(s, i) {
            Some(tok) => if i < tok.end <= s.len() {
                seq![tok] + lex_prefix_from(s, tok.end as int)
            } else {
                Seq::empty()
            },
            None => Seq::empty(),
        }
    }
}

/// The tokens at the start of `s`: all of them up to the first character
/// that starts no token.
pub open spec fn spec_lex_prefix(s: Seq<char>) -> Seq<Token> {
    lex_prefix_from(s, 0)
}

proof fn lemma_word_end(s: Seq<char>, i: int)
    requires
        0 <= i <= s.len(),
    ensures
        i <= word_end(s, i) <= s.len(),
    decreases s.len() - i,
{
    if i < s.len() && is_ident_char(s[i]) {
        lemma_word_end(s, i + 1);
    }
}

proof fn lemma_digits_end(s: Seq<char>, i: int)
    requires
        0 <= i <= s.len(),
    ensures
        i <= digits_end(s, i) <= s.len(),
        i < s.len() && is_digit(s[i]) ==> i < digits_end(s, i),
    decreases s.len() - i,
{
    if i < s.len() && is_digit(s[i]) {
        lemma_digits_end(s, i + 1);
        assert(digits_end(s, i) == digits_end(s, i + 1));
    }
}

fn scan_word(s: &Vec<char>, i: usize) -> (r: usize)
    requires
        i <= s@.len(),
    ensures
        r == word_end(s@, i as int),
{
    let mut j = i;
    while j < s.len() && is_ident_char_exec(s[j])
        invariant
            i <= j <= s@.len(),
            word_end(s@, i as int) == word_end(s@, j as int),
        decreases s@.len() - j,
    {
        j = j + 1;
    }
    j
}

fn scan_digits(s: &Vec<char>, i: usize) -> (r: usize)
    requires
        i <= s@.len(),
    ensures
        r == digits_end(s@, i as int),
{
    let mut j = i;
    while j < s.len() && is_digit_exec(s[j])
        invariant
            i <= j <= s@.len(),
            digits_end(s@, i as int) == digits_end(s@, j as int),
        decreases s@.len() - j,
    {
        j = j + 1;
    }
    j
}

fn scan_line(s: &Vec<char>, i: usize) -> (r: usize)
    requires
        i <= s@.len(),
    ensures
        r == line_end(s@, i as int),
        i <= r <= s@.len(),
{
    let mut j = i;
    while j < s.len() && s[j] != '\n'
        invariant
            i <= j <= s@.len(),
            line_end(s@, i as int) == line_end(s@, j as int),
        decreases s@.len() - j,
    {
        j = j + 1;
    }
    j
}

fn scan_block_comment(s: &Vec<char>, i: usize) -> (r: Option<usize>)
    requires
        i <= s@.len(),
    ensures
        r matches Some(e) ==> block_comment_end(s@, i as int) == Some(e as int) && i + 2 <= e <= s@.len(),
        r is None ==> block_comment_end(s@, i as int) is None,
{
    let mut j = i;
    while j < s.len() && j + 1 < s.len()
        invariant
            i <= j <= s@.len(),
            block_comment_end(s@, i as int) == block_comment_end(s@, j as int),
        decreases s@.len() - j,
    {
        if s[j] == '*' && s[j + 1] == '/' {
            return Some(j + 2);
        }
        j = j + 1;
    }
    None
}

fn scan_string(s: &Vec<char>, i: usize) -> (r: Option<usize>)
    requires
        i <= s@.len(),
    ensures
        r matches Some(e) ==> string_end(s@, i as int) == Some(e as int) && i < e <= s@.len(),
        r is None ==> string_end(s@, i as int) is None,
{
    let mut j = i;
    while j < s.len()
        invariant
            i <= j <= s@.len(),
            string_end(s@, i as int) == string_end(s@, j as int),
        decreases s@.len() - j,
    {
        let c = s[j];
        if c == '"' {
            return Some(j + 1);
        } else if c == '\n' {
            return None;
        } else if c == '\\' {
            if j + 1 < s.len() {
                j = j + 2;
            } else {
                return None;
            }
        } else {
            j = j + 1;
        }
    }
    None
}

fn is_alpha_exec(c: char) -> (r: bool)
    ensures
        r == is_alpha(c),
{
    ('a' <= c && c <= 'z') || ('A' <= c && c <= 'Z') || c == '_'
}

fn is_digit_exec(c: char) -> (r: bool)
    ensures
        r == is_digit(c),
{
    '0' <= c && c <= '9'
}

fn is_ident_char_exec(c: char) -> (r: bool)
    ensures
        r == is_ident_char(c),
{
    is_alpha_exec(c) || is_digit_exec(c)
}

fn is_punct_exec(c: char) -> (r: bool)
    ensures
        r == is_punct(c),
{
    c == '{' || c == '}' || c == '(' || c == ')' || c == '<' || c == '>' || c == ',' || c == ':'
        || c == ';' || c == '=' || c == '|' || c == '?' || c == '@' || c == '.' || c == '*'
}

/// The token that starts at `i`.
fn read_token(s: &Vec<char>, i: usize) -> (r: Option<Token>)
    requires
        i < s@.len(),
    ensures
        r == token_at(s@, i as int),
        r matches Some(t) ==> i < t.end <= s@.len(),
{
    let n = s.len();
    let c = s[i];
    if is_alpha_exec(c) {
        proof {
            lemma_word_end(s@, i + 1);
        }
        let e = scan_word(s, i + 1);
        Some(Token { kind: TokKind::Word, start: i, end: e })
    } else if is_digit_exec(c) || (c == '-' && i + 1 < s.len() && is_digit_exec(s[i + 1])) {
        let from = if c == '-' {
            i + 1
        } else {
            i
        };
        proof {
            lemma_digits_end(s@, from as int);
        }
        let d = scan_digits(s, from);
        if d < s.len() && d + 1 < s.len() && s[d] == '.' && is_digit_exec(s[d + 1]) {
            proof {
                lemma_digits_end(s@, d + 1);
            }
            let e = scan_digits(s, d + 1);
            Some(Token { kind: TokKind::Float, start: i, end: e })
        } else {
            Some(Token { kind: TokKind::Int, start: i, end: d })
        }
    } else if c == '-' && i + 1 < s.len() && s[i + 1] == '>' {
        Some(Token { kind: TokKind::Arrow, start: i, end: i + 2 })
    } else if c == '"' {
        match scan_string(s, i + 1) {
            Some(e) => Some(Token { kind: TokKind::Str, start: i, end: e }),
            None => None,
        }
    } else if is_punct_exec(c) {
        Some(Token { kind: TokKind::Punct(c), start: i, end: i + 1 })
    } else {
        None
    }
}

/// The tokens of `s`, or `None` when some character starts no token.
pub fn lex(s: &Vec<char>) -> (r: Option<Vec<Token>>)
    ensures
        match r {
            Some(v) => spec_lex(s@) == Some(v@),
            None => spec_lex(s@) is None,
        },
{
    let mut out: Vec<Token> = Vec::new();
    let mut i: usize = 0;
    let n = s.len();
    while i < n
        invariant
            n == s@.len(),
            i <= n,
            spec_lex(s@) == match lex_from(s@, i as int) {
                Some(rest) => Some(out@ + rest),
                None => None::<Seq<Token>>,
            },
        decreases n - i,
    {
        let c = s[i];
        if c == ' ' || c == '\t' || c == '\n' || c == '\r' {
            i = i + 1;
        } else if c == '/' && i + 1 < n && s[i + 1] == '/' {
            i = scan_line(s, i + 2);
        } else if c == '/' && i + 1 < n && s[i + 1] == '*' {
            match scan_block_comment(s, i + 2) {
                Some(e) => {
                    i = e;
                },
                None => {
                    return None;
                },
            }
        } else {
            match read_token(s, i) {
                Some(tok) => {
                    let ghost prev = out@;
                    out.push(tok);
                    proof {
                        match lex_from(s@, tok.end as int) {
                            Some(rest) => {
                                assert(prev + (seq![tok] + rest) =~= out@ + rest);
                            },
                            None => {},
                        }
                    }
                    i = tok.end;
                },
                None => {
                    return None;
                },
            }
        }
    }
    assert(out@ + Seq::<Token>::empty() =~= out@);
    Some(out)
}

/// The tokens at the start of `s`, up to the first character that starts
/// no token.
pub fn lex_prefix(s: &Vec<char>) -> (r: Vec<Token>)
    ensures
        r@ == spec_lex_prefix(s@),
{
    let mut out: Vec<Token> = Vec::new();
    let mut i: usize = 0;
    let n = s.len();
    while i < n
        invariant
            n == s@.len(),
            i <= n,
            spec_lex_prefix(s@) == out@ + lex_prefix_from(s@, i as int),
        decreases n - i,
    {
        let c = s[i];
        if c == ' ' || c == '\t' || c == '\n' || c == '\r' {
            i = i + 1;
        } else if c == '/' && i + 1 < n && s[i + 1] == '/' {
            i = scan_line(s, i + 2);
        } else if c == '/' && i + 1 < n && s[i + 1] == '*' {
            match scan_block_comment(s, i + 2) {
                Some(e) => {
                    i = e;
                },
                None => {
                    assert(out@ + Seq::<Token>::empty() =~= out@);
                    return out;
                },
            }
        } else {
            match read_token(s, i) {
                Some(tok) => {
                    let ghost prev = out@;
                    out.push(tok);
                    assert(prev + (seq![tok] + lex_prefix_from(s@, tok.end as int)) =~= out@ + lex_prefix_from(
                        s@,
                        tok.end as int,
                    ));
                    i = tok.end;
                },
                None => {
                    assert(out@ + Seq::<Token>::empty() =~= out@);
                    return out;
                },
            }
        }
    }
    assert(out@ + Seq::<Token>::empty() =~= out@);
    out
}

} // verus!
