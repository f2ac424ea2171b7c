//! Tokenizer for specification text.
//!
//! Lexing is total: every character sequence yields a token sequence.
//! Identifiers, lifetimes and numbers are maximal runs; `::` and `->` are
//! two-character punctuation tokens; any other non-space character is a
//! one-character punctuation token.  Characters that cannot begin a
//! meaningful token still become punctuation, which the parser rejects.

use vstd::prelude::*;
use vstd::string::StrSliceExecFns;
use crate::ir::{GTok, Tok, TokKind, tv};

verus! {

/// Whitespace between tokens.
pub open spec fn is_ws(c: char) -> bool {
    c == ' ' || c == '\n' || c == '\t' || c == '\r'
}

/// A decimal digit.
pub open spec fn is_digit(c: char) -> bool {
    48 <= c as u32 && c as u32 <= 57
}

/// A character that may begin an identifier.
pub open spec fn is_id_start(c: char) -> bool {
    (97 <= c as u32 && c as u32 <= 122) || (65 <= c as u32 && c as u32 <= 90) || c as u32 == 95
}

/// A character that may continue an identifier, lifetime or number.
pub open spec fn is_id_char(c: char) -> bool {
    is_id_start(c) || is_digit(c)
}

/// The first position at or after `i` that does not hold an identifier
/// character.
pub open spec fn id_end(s: Seq<char>, i: int) -> int
    decreases s.len() - i,
{
    if i < s.len() && is_id_char(s[i]) {
        id_end(s, i + 1)
    } else {
        i
    }
}

pub proof fn lemma_id_end_bounds(s: Seq<char>, i: int)
    requires
        0 <= i <= s.len(),
    ensures
        i <= id_end(s, i) <= s.len(),
    decreases s.len() - i,
{
    if i < s.len() && is_id_char(s[i]) {
        lemma_id_end_bounds(s, i + 1);
    }
}

/// The kind of the token that begins at position `i` (which must not hold
/// whitespace).
pub open spec fn tok_kind(s: Seq<char>, i: int) -> TokKind {
    if is_id_start(s[i]) {
        TokKind::Ident
    } else if is_digit(s[i]) {
        TokKind::Num
    } else if s[i] == '\'' && i + 1 < s.len() && is_id_start(s[i + 1]) {
        TokKind::Life
    } else {
        TokKind::Punc
    }
}

/// The end of the token that begins at position `i`.
pub open spec fn tok_end(s: Seq<char>, i: int) -> int {
    if is_id_start(s[i]) || is_digit(s[i]) {
        id_end(s, i)
    } else if s[i] == '\'' && i + 1 < s.len() && is_id_start(s[i + 1]) {
        id_end(s, i + 1)
    } else if s[i] == ':' && i + 1 < s.len() && s[i + 1] == ':' {
        i + 2
    } else if s[i] == '-' && i + 1 < s.len() && s[i + 1] == '>' {
        i + 2
    } else {
        i + 1
    }
}

/// The token sequence of `s` from position `i` on.
pub open spec fn lex_at(s: Seq<char>, i: int) -> Seq<GTok>
    decreases s.len() - i,
{
    if i < 0 || i >= s.len() {
        Seq::empty()
    } else if is_ws(s[i]) {
        lex_at(s, i + 1)
    } else {
        let e = tok_end(s, i);
        if i < e <= s.len() {
            seq![GTok { kind: tok_kind(s, i), text: s.subrange(i, e) }] + lex_at(s, e)
        } else {
            Seq::empty()
        }
    }
}

/// The token sequence of the whole of `s`.
pub open spec fn lex_of(s: Seq<char>) -> Seq<GTok> {
    lex_at(s, 0)
}

/// Collects the characters of a string slice.
fn to_chars(s: &str) -> (r: Vec<char>)
    ensures
        r@ == s@,
{
    let n: usize = s.unicode_len();
    let mut r: Vec<char> = Vec::new();
    let mut i: usize = 0;
    while i < n
        invariant
            n == s@.len(),
            0 <= i <= n,
            r@ == s@.subrange(0, i as int),
        decreases n - i,
    {
        let c = s.get_char(i);
        r.push(c);
        i = i + 1;
        proof {
            assert(r@ =~= s@.subrange(0, i as int));
        }
    }
    proof {
        assert(r@ =~= s@);
    }
    r
}

/// Whether `c` continues an identifier.
fn id_char(c: char) -> (r: bool)
    ensures
        r == is_id_char(c),
{
    let u = c as u32;
    (97 <= u && u <= 122) || (65 <= u && u <= 90) || u == 95 || (48 <= u && u <= 57)
}

/// Whether `c` may begin an identifier.
fn id_start(c: char) -> (r: bool)
    ensures
        r == is_id_start(c),
{
    let u = c as u32;
    (97 <= u && u <= 122) || (65 <= u && u <= 90) || u == 95
}

/// Scans to the end of an identifier-character run.
fn scan_id_end(cs: &Vec<char>, i: usize) -> (j: usize)
    requires
        0 <= i <= cs@.len(),
    ensures
        j == id_end(cs@, i as int),
        i <= j <= cs@.len(),
{
    let n: usize = cs.len();
    let mut j: usize = i;
    while j < n && id_char(cs[j])
        invariant
            0 <= i <= j <= n,
            n == cs@.len(),
            id_end(cs@, i as int) == id_end(cs@, j as int),
        decreases n - j,
    {
        j = j + 1;
    }
    j
}

/// Tokenizes `s`; the result is exactly `lex_of(s@)`.
pub fn lex(s: &str) -> (r: Vec<Tok>)
    ensures
        tv(r@) == lex_of(s@),
{
    let cs = to_chars(s);
    let n: usize = cs.len();
    let mut out: Vec<Tok> = Vec::new();
    let mut i: usize = 0;
    while i < n
        invariant
            0 <= i <= n,
            n == s@.len(),
            cs@ == s@,
            lex_of(s@) == tv(out@) + lex_at(s@, i as int),
        decreases n - i,
    {
        let c = cs[i];
        if c == ' ' || c == '\n' || c == '\t' || c == '\r' {
            i = i + 1;
        } else {
            let kind: TokKind;
            let e: usize;
            if id_start(c) {
                kind = TokKind::Ident;
                e = scan_id_end(&cs, i);
            } else if {
                let u = c as u32;
                48 <= u && u <= 57
            } {
                kind = TokKind::Num;
                e = scan_id_end(&cs, i);
            } else if c == '\'' && i + 1 < n && id_start(cs[i + 1]) {
                kind = TokKind::Life;
                e = scan_id_end(&cs, i + 1);
            } else if c == ':' && i + 1 < n && cs[i + 1] == ':' {
                kind = TokKind::Punc;
                e = i + 2;
            } else if c == '-' && i + 1 < n && cs[i + 1] == '>' {
                kind = TokKind::Punc;
                e = i + 2;
            } else {
                kind = TokKind::Punc;
                e = i + 1;
            }
            proof {
                assert(kind == tok_kind(s@, i as int));
                if is_id_start(c) || is_digit(c) {
                    assert(id_end(s@, i as int) == id_end(s@, i as int + 1) || !is_id_char(c));
                }
                assert(e as int == tok_end(s@, i as int));
                lemma_id_end_bounds(s@, i as int);
                lemma_id_end_bounds(s@, i as int + 1);
                assert(i < e <= n);
            }
            let piece = s.substring_char(i, e);
            let t = Tok { kind, text: piece.to_owned() };
            proof {
                assert(t@ == GTok { kind: tok_kind(s@, i as int), text: s@.subrange(i as int, e as int) });
                assert(lex_at(s@, i as int) == seq![t@] + lex_at(s@, e as int));
            }
            out.push(t);
            proof {
                assert(tv(out@) =~= tv(out@.drop_last()) + seq![out@.last()@]);
                assert(tv(out@) + lex_at(s@, e as int) =~= (tv(out@.drop_last()) + seq![out@.last()@])
                    + lex_at(s@, e as int));
                assert((tv(out@.drop_last()) + seq![out@.last()@]) + lex_at(s@, e as int)
                    =~= tv(out@.drop_last()) + (seq![out@.last()@] + lex_at(s@, e as int)));
            }
            i = e;
        }
    }
    proof {
        assert(lex_of(s@) =~= tv(out@));
    }
    out
}

} // verus!
