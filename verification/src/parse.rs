//! The specification parser.
//!
//! Grammar, informally:
//!
//! ```text
//! MockSpec   := Visibility Name Generics? '{' MethodSig* '}' TraitBlock*
//! TraitBlock := Quals? 'trait' Name Generics? '{' (AssocType | Const | MethodSig)* '}'
//! MethodSig  := Quals? 'fn' Name Generics? '(' Receiver? (',' Param)* ')' ReturnType? ';'
//! ```
//!
//! The parser is sound by construction: whenever it accepts, the returned
//! representation prints back (see the `print_*` spec functions) to exactly
//! the token sequence that was consumed, so nothing is invented, dropped or
//! reordered.  Qualifier runs, types, patterns and bounds are kept verbatim.

use vstd::prelude::*;
use crate::ir::{AssocTy, GTok, GenErr, Generics, Gp, GpKind, MethodSig, MockSpec, Param, Recv, Tok, TokKind, TraitBlock, TraitItem, dup_tok, g_id, g_pn, is_id, is_p, id_is, p_is, tv};

verus! {

// ---------------------------------------------------------------------------
// Printing: the token sequence a representation stands for

/// The comma-separated generic-parameter list.
pub open spec fn print_gps(ps: Seq<Gp>) -> Seq<GTok>
    decreases ps.len(),
{
    if ps.len() == 0 {
        Seq::empty()
    } else if ps.len() == 1 {
        tv(ps[0].toks@)
    } else {
        print_gps(ps.drop_last()) + seq![g_pn(","@)] + tv(ps.last().toks@)
    }
}

/// A generic-parameter list with its angle brackets; nothing when empty.
pub open spec fn print_generics(g: Generics) -> Seq<GTok> {
    if g.params@.len() == 0 {
        Seq::empty()
    } else {
        seq![g_pn("<"@)] + print_gps(g.params@) + seq![g_pn(">"@)]
    }
}

/// One declared parameter.
pub open spec fn print_param(p: Param) -> Seq<GTok> {
    tv(p.pat@) + seq![g_pn(":"@)] + tv(p.ty@)
}

/// The comma-separated declared parameter list.
pub open spec fn print_params(ps: Seq<Param>) -> Seq<GTok>
    decreases ps.len(),
{
    if ps.len() == 0 {
        Seq::empty()
    } else if ps.len() == 1 {
        print_param(ps[0])
    } else {
        print_params(ps.drop_last()) + seq![g_pn(","@)] + print_param(ps.last())
    }
}

/// An input list from its parts: receiver, separator, parameters.
pub open spec fn print_inputs_parts(recv: Recv, rt: Seq<Tok>, ps: Seq<Param>) -> Seq<GTok> {
    tv(rt) + (if recv != Recv::Missing && ps.len() > 0 {
        seq![g_pn(","@)]
    } else {
        Seq::<GTok>::empty()
    }) + print_params(ps)
}

/// The parenthesized input list: receiver, separator, parameters.
pub open spec fn print_inputs(m: MethodSig) -> Seq<GTok> {
    print_inputs_parts(m.recv, m.recv_toks@, m.params@)
}

/// The declared return type.
pub open spec fn print_ret(ret: Option<Vec<Tok>>) -> Seq<GTok> {
    match ret {
        Option::None => Seq::empty(),
        Option::Some(v) => seq![g_pn("->"@)] + tv(v@),
    }
}

/// One method signature.
pub open spec fn print_method(m: MethodSig) -> Seq<GTok> {
    tv(m.quals@) + seq![g_id("fn"@)] + seq![m.name@] + print_generics(m.generics) + seq![
        g_pn("("@),
    ] + print_inputs(m) + seq![g_pn(")"@)] + print_ret(m.ret) + seq![g_pn(";"@)]
}

/// One associated type, with its binding when present.
pub open spec fn print_assoc(a: AssocTy) -> Seq<GTok> {
    seq![g_id("type"@)] + seq![a.name@] + print_generics(a.generics) + (match a.binding {
        Option::Some(b) => seq![g_pn("="@)] + tv(b@),
        Option::None => Seq::<GTok>::empty(),
    }) + seq![g_pn(";"@)]
}

/// One trait item.
pub open spec fn print_item(it: TraitItem) -> Seq<GTok> {
    match it {
        TraitItem::Method(m) => print_method(m),
        TraitItem::Assoc(a) => print_assoc(a),
        TraitItem::Konst(v) => seq![g_id("const"@)] + tv(v@) + seq![g_pn(";"@)],
    }
}

/// All items of a trait block.
pub open spec fn print_items(items: Seq<TraitItem>) -> Seq<GTok>
    decreases items.len(),
{
    if items.len() == 0 {
        Seq::empty()
    } else {
        print_items(items.drop_last()) + print_item(items.last())
    }
}

/// One trait block.
pub open spec fn print_trait(t: TraitBlock) -> Seq<GTok> {
    tv(t.quals@) + seq![g_id("trait"@)] + seq![t.name@] + print_generics(t.generics) + seq![
        g_pn("{"@),
    ] + print_items(t.items@) + seq![g_pn("}"@)]
}

/// All trait blocks.
pub open spec fn print_traits(ts: Seq<TraitBlock>) -> Seq<GTok>
    decreases ts.len(),
{
    if ts.len() == 0 {
        Seq::empty()
    } else {
        print_traits(ts.drop_last()) + print_trait(ts.last())
    }
}

/// All free methods.
pub open spec fn print_methods(ms: Seq<MethodSig>) -> Seq<GTok>
    decreases ms.len(),
{
    if ms.len() == 0 {
        Seq::empty()
    } else {
        print_methods(ms.drop_last()) + print_method(ms.last())
    }
}

/// A whole specification.
pub open spec fn print_spec(m: MockSpec) -> Seq<GTok> {
    tv(m.vis@) + seq![m.name@] + print_generics(m.generics) + seq![g_pn("{"@)] + print_methods(
        m.methods@) + seq![g_pn("}"@)] + print_traits(m.traits@)
}

// ---------------------------------------------------------------------------
// Well-formedness of what parsing yields

/// A parsed generic parameter agrees with its own tokens: the name is the
/// leading token, the kind follows from it, and `bounded` records whether
/// anything follows the name.
pub open spec fn gp_wf(p: Gp) -> bool {
    &&& p.toks@.len() > 0
    &&& p.name == p.toks@[0]
    &&& (p.kind == GpKind::Lt <==> p.toks@[0].kind == TokKind::Life)
    &&& (p.kind == GpKind::Konst <==> is_id(p.toks@[0], "const"@))
    &&& p.bounded == (p.toks@.len() > 1)
    &&& seg_ok(p.toks@, ScanEnd::CommaGt)
}

/// Every parameter of a generic-parameter list is well formed.
pub open spec fn generics_wf(g: Generics) -> bool {
    forall|k: int| 0 <= k < g.params@.len() ==> gp_wf(#[trigger] g.params@[k])
}

/// A parsed method agrees with its own tokens: it is static exactly when
/// no receiver tokens were written, the receiver has one of the four fixed
/// shapes of its mode, qualifiers are a `fn`-free identifier run, and the
/// parameter and return segments are non-empty, well delimited, and free
/// of `self` patterns.
pub open spec fn method_wf(m: MethodSig) -> bool {
    &&& (m.recv == Recv::Missing <==> m.recv_toks@.len() == 0)
    &&& m.name.kind == TokKind::Ident
    &&& generics_wf(m.generics)
    &&& (forall|k: int|
        0 <= k < m.quals@.len() ==> (#[trigger] m.quals@[k]).kind == TokKind::Ident && !is_id(
            m.quals@[k],
            "fn"@,
        ))
    &&& recv_shape_wf(m.recv, m.recv_toks@)
    &&& (forall|k: int| 0 <= k < m.params@.len() ==> param_wf(#[trigger] m.params@[k]))
    &&& (match m.ret {
        Option::None => true,
        Option::Some(v) => v@.len() > 0 && seg_ok(v@, ScanEnd::Semi),
    })
}

/// Every item of a trait block is well formed: a method as above, an
/// associated type with an identifier name and a non-empty well-delimited
/// binding when one is present, or a constant whose tokens are a
/// well-delimited segment.
pub open spec fn item_wf(it: TraitItem) -> bool {
    match it {
        TraitItem::Method(m) => method_wf(m),
        TraitItem::Assoc(a) => generics_wf(a.generics) && a.name.kind == TokKind::Ident && (
        match a.binding {
            Option::None => true,
            Option::Some(b) => b@.len() > 0 && seg_ok(b@, ScanEnd::Semi),
        }),
        TraitItem::Konst(v) => seg_ok(v@, ScanEnd::Semi),
    }
}

/// A parsed trait block is well formed: qualifiers are a `trait`-free
/// identifier run, the name is an identifier, and every parameter and item
/// is well formed.
pub open spec fn trait_wf(t: TraitBlock) -> bool {
    &&& generics_wf(t.generics)
    &&& t.name.kind == TokKind::Ident
    &&& (forall|k: int|
        0 <= k < t.quals@.len() ==> (#[trigger] t.quals@[k]).kind == TokKind::Ident && !is_id(
            t.quals@[k],
            "trait"@,
        ))
    &&& forall|k: int| 0 <= k < t.items@.len() ==> item_wf(#[trigger] t.items@[k])
}

/// Visibility tokens are empty, a bare `pub`, or `pub` followed by a
/// parenthesized argument.
pub open spec fn vis_wf(vis: Seq<Tok>) -> bool {
    ||| vis.len() == 0
    ||| (vis.len() == 1 && is_id(vis[0], "pub"@))
    ||| (vis.len() >= 3 && is_id(vis[0], "pub"@) && is_p(vis[1], "("@) && is_p(
        vis[vis.len() - 1],
        ")"@,
    ))
}

/// A parsed specification is well formed.
pub open spec fn spec_wf(m: MockSpec) -> bool {
    &&& vis_wf(m.vis@)
    &&& m.name.kind == TokKind::Ident
    &&& generics_wf(m.generics)
    &&& forall|k: int| 0 <= k < m.methods@.len() ==> method_wf(#[trigger] m.methods@[k])
    &&& forall|k: int| 0 <= k < m.traits@.len() ==> trait_wf(#[trigger] m.traits@[k])
}

// ---------------------------------------------------------------------------
// Scanning

/// Whether the token at `i` is the punctuation `s`.
fn at_p(toks: &Vec<Tok>, i: usize, s: &str) -> (b: bool)
    ensures
        b == (i < toks@.len() && is_p(toks@[i as int], s@)),
{
    i < toks.len() && p_is(&toks[i], s)
}

/// Whether the token at `i` is the identifier `s`.
fn at_id(toks: &Vec<Tok>, i: usize, s: &str) -> (b: bool)
    ensures
        b == (i < toks@.len() && is_id(toks@[i as int], s@)),
{
    i < toks.len() && id_is(&toks[i], s)
}

/// Consumes the punctuation `s` at `i`, or fails.
fn expect_p(toks: &Vec<Tok>, i: usize, s: &str) -> (r: Result<usize, GenErr>)
    ensures
        r matches Ok(j) ==> j == i + 1,
        r is Ok <==> i < toks@.len() && is_p(toks@[i as int], s@),
        r matches Err(e) ==> e == GenErr::Parse,
{
    if i < toks.len() && p_is(&toks[i], s) {
        Result::Ok(i + 1)
    } else {
        Result::Err(GenErr::Parse)
    }
}

/// Where a verbatim token run ends.
#[derive(Clone, Copy, PartialEq, Eq, Structural)]
pub enum ScanEnd {
    /// A top-level `,` or `)`.
    CommaParen,
    /// A top-level `,` or `>`.
    CommaGt,
    /// A top-level `;`.
    Semi,
    /// A top-level `:`.
    Colon,
}

/// A bracket that opens a nesting level.
pub open spec fn is_opener(t: Tok) -> bool {
    is_p(t, "("@) || is_p(t, "["@) || is_p(t, "{"@) || is_p(t, "<"@)
}

/// A bracket that closes a nesting level.
pub open spec fn is_closer(t: Tok) -> bool {
    is_p(t, ")"@) || is_p(t, "]"@) || is_p(t, "}"@) || is_p(t, ">"@)
}

/// An end token of `mode`.
pub open spec fn is_stop(t: Tok, mode: ScanEnd) -> bool {
    match mode {
        ScanEnd::CommaParen => is_p(t, ","@) || is_p(t, ")"@),
        ScanEnd::CommaGt => is_p(t, ","@) || is_p(t, ">"@),
        ScanEnd::Semi => is_p(t, ";"@),
        ScanEnd::Colon => is_p(t, ":"@),
    }
}

/// Where a verbatim token run starting at `i` with open `depth` ends: the
/// position of the first top-level end token of `mode`; `None` when an
/// unmatched closer comes first or no end token is found.
pub open spec fn scan_end(toks: Seq<Tok>, i: int, depth: int, mode: ScanEnd) -> Option<int>
    decreases toks.len() - i,
{
    if i < 0 || i >= toks.len() {
        Option::None
    } else if depth == 0 && is_stop(toks[i], mode) {
        Option::Some(i)
    } else if is_opener(toks[i]) {
        scan_end(toks, i + 1, depth + 1, mode)
    } else if is_closer(toks[i]) {
        if depth == 0 {
            Option::None
        } else {
            scan_end(toks, i + 1, depth - 1, mode)
        }
    } else {
        scan_end(toks, i + 1, depth, mode)
    }
}

/// An end position lies between its start and the end of the tokens.
pub proof fn lemma_scan_end_bounds(toks: Seq<Tok>, i: int, depth: int, mode: ScanEnd)
    requires
        0 <= i,
        scan_end(toks, i, depth, mode) is Some,
    ensures
        i <= scan_end(toks, i, depth, mode)->Some_0 < toks.len(),
    decreases toks.len() - i,
{
    if !(i >= toks.len()) && !(depth == 0 && is_stop(toks[i], mode)) {
        if is_opener(toks[i]) {
            lemma_scan_end_bounds(toks, i + 1, depth + 1, mode);
        } else if is_closer(toks[i]) {
            lemma_scan_end_bounds(toks, i + 1, depth - 1, mode);
        } else {
            lemma_scan_end_bounds(toks, i + 1, depth, mode);
        }
    }
}

/// The bracket depth after walking the tokens of `s` from `a` to `b`.
pub open spec fn dpt(s: Seq<Tok>, a: int, b: int) -> int
    decreases b - a,
{
    if b <= a {
        0
    } else {
        dpt(s, a, b - 1) + (if is_opener(s[b - 1]) {
            1int
        } else if is_closer(s[b - 1]) {
            -1int
        } else {
            0int
        })
    }
}

/// Whether walking `s` from `a` to `b` meets no top-level end token of
/// `mode` and no unmatched closer.
pub open spec fn ok_walk(s: Seq<Tok>, a: int, b: int, mode: ScanEnd) -> bool
    decreases b - a,
{
    if b <= a {
        true
    } else {
        &&& ok_walk(s, a, b - 1, mode)
        &&& !(dpt(s, a, b - 1) == 0 && is_stop(s[b - 1], mode))
        &&& ((!is_opener(s[b - 1]) && is_closer(s[b - 1])) ==> dpt(s, a, b - 1) > 0)
    }
}

/// A well-delimited segment for `mode`: brackets balance to zero, no
/// closer is unmatched, and no end token of `mode` occurs at top level.
/// Such a segment cannot absorb the structural tokens around it.
pub open spec fn seg_ok(s: Seq<Tok>, mode: ScanEnd) -> bool {
    ok_walk(s, 0, s.len() as int, mode) && dpt(s, 0, s.len() as int) == 0
}

/// A depth walk depends only on the tokens walked.
proof fn lemma_dpt_shift(big: Seq<Tok>, small: Seq<Tok>, off: int, a: int, b: int)
    requires
        0 <= a <= b <= big.len(),
        0 <= a - off,
        b - off <= small.len(),
        forall|k: int| a <= k < b ==> small[k - off] == #[trigger] big[k],
    ensures
        dpt(small, a - off, b - off) == dpt(big, a, b),
    decreases b - a,
{
    if b > a {
        lemma_dpt_shift(big, small, off, a, b - 1);
        assert(small[b - 1 - off] == big[b - 1]);
    }
}

/// A validity walk depends only on the tokens walked.
proof fn lemma_walk_shift(big: Seq<Tok>, small: Seq<Tok>, off: int, a: int, b: int, mode: ScanEnd)
    requires
        0 <= a <= b <= big.len(),
        0 <= a - off,
        b - off <= small.len(),
        forall|k: int| a <= k < b ==> small[k - off] == #[trigger] big[k],
        ok_walk(big, a, b, mode),
    ensures
        ok_walk(small, a - off, b - off, mode),
    decreases b - a,
{
    if b > a {
        lemma_walk_shift(big, small, off, a, b - 1, mode);
        lemma_dpt_shift(big, small, off, a, b - 1);
        assert(small[b - 1 - off] == big[b - 1]);
    }
}

/// Collects tokens verbatim from `i` up to (not including) the first
/// top-level end token of `mode`, tracking bracket depth.  Fails on an
/// unmatched closer or when no end token is found.  Succeeds exactly when
/// `scan_end` gives a position, and the collected run is a well-delimited
/// segment.
#[verifier::rlimit(100)]
#[verifier::spinoff_prover]
fn scan_toks(toks: &Vec<Tok>, i: usize, mode: ScanEnd) -> (r: Result<(Vec<Tok>, usize), GenErr>)
    requires
        i <= toks@.len(),
    ensures
        r matches Ok(p) ==> i <= p.1 <= toks@.len() && p.0@ == toks@.subrange(i as int, p.1 as int),
        r matches Ok(p) ==> seg_ok(p.0@, mode),
        r is Ok <==> scan_end(toks@, i as int, 0, mode) is Some,
        r matches Ok(p) ==> scan_end(toks@, i as int, 0, mode) == Option::Some(p.1 as int),
        r matches Err(e) ==> e == GenErr::Parse,
{
    let n: usize = toks.len();
    let mut j: usize = i;
    let mut depth: usize = 0;
    let mut v: Vec<Tok> = Vec::new();
    proof {
        assert(v@ =~= toks@.subrange(i as int, i as int));
    }
    while j < n
        invariant
            i <= j <= n,
            n == toks@.len(),
            depth <= j - i,
            depth as int == dpt(toks@, i as int, j as int),
            ok_walk(toks@, i as int, j as int, mode),
            v@ == toks@.subrange(i as int, j as int),
            scan_end(toks@, i as int, 0, mode) == scan_end(toks@, j as int, depth as int, mode),
        decreases n - j,
    {
        let t = &toks[j];
        let stop: bool = match mode {
            ScanEnd::CommaParen => p_is(t, ",") || p_is(t, ")"),
            ScanEnd::CommaGt => p_is(t, ",") || p_is(t, ">"),
            ScanEnd::Semi => p_is(t, ";"),
            ScanEnd::Colon => p_is(t, ":"),
        };
        proof {
            assert(stop == is_stop(toks@[j as int], mode));
        }
        if depth == 0 && stop {
            proof {
                assert(scan_end(toks@, j as int, 0, mode) == Option::Some(j as int));
                assert(forall|k: int| i <= k < j ==> v@[k - i] == #[trigger] toks@[k]);
                lemma_dpt_shift(toks@, v@, i as int, i as int, j as int);
                lemma_walk_shift(toks@, v@, i as int, i as int, j as int, mode);
                assert(seg_ok(v@, mode));
            }
            return Result::Ok((v, j));
        }
        let ghost d0 = depth as int;
        if p_is(t, "(") || p_is(t, "[") || p_is(t, "{") || p_is(t, "<") {
            if depth == usize::MAX {
                proof {
                    assert(false);
                }
                return Result::Err(GenErr::Parse);
            }
            depth = depth + 1;
            proof {
                assert(is_opener(toks@[j as int]));
            }
        } else if p_is(t, ")") || p_is(t, "]") || p_is(t, "}") || p_is(t, ">") {
            if depth == 0 {
                proof {
                    assert(scan_end(toks@, j as int, 0, mode) is None);
                }
                return Result::Err(GenErr::Parse);
            }
            depth = depth - 1;
            proof {
                assert(is_closer(toks@[j as int]));
                assert(d0 > 0);
            }
        } else {
            proof {
                assert(!is_opener(toks@[j as int]) && !is_closer(toks@[j as int]));
            }
        }
        v.push(dup_tok(t));
        proof {
            assert(v@ =~= toks@.subrange(i as int, j + 1));
            assert(d0 == dpt(toks@, i as int, j as int));
            assert(!(d0 == 0 && is_stop(toks@[j as int], mode)));
            assert((!is_opener(toks@[j as int]) && is_closer(toks@[j as int])) ==> d0 > 0);
            assert(dpt(toks@, i as int, j + 1) == d0 + (if is_opener(toks@[j as int]) {
                1int
            } else if is_closer(toks@[j as int]) {
                -1int
            } else {
                0int
            }));
            assert(depth as int == dpt(toks@, i as int, j + 1));
            assert(ok_walk(toks@, i as int, j + 1, mode));
        }
        j = j + 1;
    }
    proof {
        assert(scan_end(toks@, j as int, depth as int, mode) is None);
    }
    Result::Err(GenErr::Parse)
}

// ---------------------------------------------------------------------------
// The grammar, stated over token positions
//
// These functions say, for each production, where a derivation starting at
// a position ends (`None` when the tokens do not conform).  The parsers
// below succeed exactly when the corresponding function yields an end
// position: success is owed on every conforming input.

/// The end of the identifier run before the keyword `kw`.
pub open spec fn quals_end(toks: Seq<Tok>, i: int, kw: Seq<char>) -> int
    decreases toks.len() - i,
{
    if 0 <= i < toks.len() && toks[i].kind == TokKind::Ident && !is_id(toks[i], kw) {
        quals_end(toks, i + 1, kw)
    } else {
        i
    }
}

/// Whether the identifier run starting at `i` reaches a `fn` keyword.
pub open spec fn finds_spec(toks: Seq<Tok>, i: int) -> bool
    decreases toks.len() - i,
{
    if i < 0 || i >= toks.len() {
        false
    } else if is_id(toks[i], "fn"@) {
        true
    } else if toks[i].kind == TokKind::Ident {
        finds_spec(toks, i + 1)
    } else {
        false
    }
}

/// The end of a generic-parameter list's remainder, at a parameter start
/// inside the angle brackets: parameters separated by commas, closed by `>`.
pub open spec fn gps_end(toks: Seq<Tok>, j: int) -> Option<int>
    decreases toks.len() - j,
{
    match scan_end(toks, j, 0, ScanEnd::CommaGt) {
        Option::None => Option::None,
        Option::Some(e) => if e <= j {
            Option::None
        } else if !(0 <= j && (toks[j].kind == TokKind::Life || toks[j].kind == TokKind::Ident)) {
            Option::None
        } else if e < toks.len() && is_p(toks[e], ">"@) {
            Option::Some(e + 1)
        } else if e < toks.len() && is_p(toks[e], ","@) {
            gps_end(toks, e + 1)
        } else {
            Option::None
        },
    }
}

/// The end of an optional generic-parameter list at `i`.
pub open spec fn generics_end(toks: Seq<Tok>, i: int) -> Option<int> {
    if 0 <= i < toks.len() && is_p(toks[i], "<"@) {
        gps_end(toks, i + 1)
    } else {
        Option::Some(i)
    }
}

// ---------------------------------------------------------------------------
// Generic-parameter lists

/// Parses an optional generic-parameter list at `i`.  On success the
/// consumed tokens print back exactly, and every parameter is well formed.
#[verifier::rlimit(100)]
#[verifier::spinoff_prover]
fn parse_generics(toks: &Vec<Tok>, i: usize) -> (r: Result<(Generics, usize), GenErr>)
    requires
        i <= toks@.len(),
    ensures
        r matches Ok(p) ==> i <= p.1 <= toks@.len() && tv(toks@.subrange(i as int, p.1 as int))
            == print_generics(p.0) && generics_wf(p.0),
        r is Ok <==> generics_end(toks@, i as int) is Some,
        r matches Ok(p) ==> generics_end(toks@, i as int) == Option::Some(p.1 as int),
        r matches Err(e) ==> e == GenErr::Parse,
{
    if !at_p(toks, i, "<") {
        let g = Generics { params: Vec::new() };
        proof {
            assert(tv(toks@.subrange(i as int, i as int)) =~= print_generics(g));
        }
        return Result::Ok((g, i));
    }
    let n: usize = toks.len();
    let mut params: Vec<Gp> = Vec::new();
    let mut j: usize = i + 1;
    loop
        invariant
            i < j <= n,
            n == toks@.len(),
            generics_end(toks@, i as int) == gps_end(toks@, j as int),
            tv(toks@.subrange(i as int, j as int)) == seq![g_pn("<"@)] + (if params@.len() == 0 {
                Seq::<GTok>::empty()
            } else {
                print_gps(params@) + seq![g_pn(","@)]
            }),
            forall|k: int| 0 <= k < params@.len() ==> gp_wf(#[trigger] params@[k]),
        decreases n - j,
    {
        let (ptoks, j2) = match scan_toks(toks, j, ScanEnd::CommaGt) {
            Result::Ok(p) => p,
            Result::Err(e) => {
                proof {
                    assert(gps_end(toks@, j as int) is None);
                }
                return Result::Err(e);
            },
        };
        proof {
            lemma_scan_end_bounds(toks@, j as int, 0, ScanEnd::CommaGt);
            assert(j2 < n);
            assert(ptoks@.len() > 0 ==> ptoks@[0] == toks@[j as int]);
        }
        if ptoks.len() == 0 {
            proof {
                assert(gps_end(toks@, j as int) is None);
            }
            return Result::Err(GenErr::Parse);
        }
        let kind: GpKind = if ptoks[0].kind == TokKind::Life {
            GpKind::Lt
        } else if id_is(&ptoks[0], "const") {
            GpKind::Konst
        } else if ptoks[0].kind == TokKind::Ident {
            GpKind::Ty
        } else {
            proof {
                assert(gps_end(toks@, j as int) is None);
            }
            return Result::Err(GenErr::Parse);
        };
        let bounded = ptoks.len() > 1;
        let name = dup_tok(&ptoks[0]);
        let gp = Gp { kind, name, bounded, toks: ptoks };
        proof {
            assert(gp_wf(gp));
        }
        let ghost pre = params@;
        params.push(gp);
        proof {
            assert(params@.drop_last() =~= pre);
            assert(params@.last() == gp);
            assert(tv(toks@.subrange(i as int, j2 as int)) =~= tv(toks@.subrange(i as int, j as int))
                + tv(toks@.subrange(j as int, j2 as int)));
            assert(tv(gp.toks@) =~= tv(toks@.subrange(j as int, j2 as int)));
            if pre.len() == 0 {
                assert(print_gps(params@) == tv(params@[0].toks@));
                assert(params@[0] == gp);
            } else {
                assert(print_gps(params@) == print_gps(pre) + seq![g_pn(","@)] + tv(gp.toks@));
            }
            assert(tv(toks@.subrange(i as int, j2 as int)) =~= seq![g_pn("<"@)] + print_gps(
                params@));
        }
        if at_p(toks, j2, ">") {
            proof {
                assert(tv(toks@.subrange(i as int, j2 + 1)) =~= tv(
                    toks@.subrange(i as int, j2 as int)) + seq![toks@[j2 as int]@]);
                assert(toks@[j2 as int]@ == g_pn(">"@));
                assert(gps_end(toks@, j as int) == Option::Some(j2 + 1));
            }
            let g = Generics { params };
            proof {
                assert(tv(toks@.subrange(i as int, j2 + 1)) =~= print_generics(g));
            }
            return Result::Ok((g, j2 + 1));
        }
        let j3 = match expect_p(toks, j2, ",") {
            Result::Ok(j3) => j3,
            Result::Err(e) => {
                proof {
                    assert(scan_end(toks@, j as int, 0, ScanEnd::CommaGt) == Option::Some(
                        j2 as int));
                    assert(j2 > j);
                    assert(toks@[j as int].kind == TokKind::Life || toks@[j as int].kind
                        == TokKind::Ident);
                    assert(!(j2 < toks@.len() && is_p(toks@[j2 as int], ">"@)));
                    assert(!(j2 < toks@.len() && is_p(toks@[j2 as int], ","@)));
                    assert(gps_end(toks@, j as int) is None);
                }
                return Result::Err(e);
            },
        };
        proof {
            assert(gps_end(toks@, j as int) == gps_end(toks@, j2 + 1));
        }
        proof {
            assert(tv(toks@.subrange(i as int, j3 as int)) =~= tv(
                toks@.subrange(i as int, j2 as int)) + seq![toks@[j2 as int]@]);
            assert(toks@[j2 as int]@ == g_pn(","@));
            assert(tv(toks@.subrange(i as int, j3 as int)) =~= seq![g_pn("<"@)] + (print_gps(
                params@) + seq![g_pn(","@)]));
        }
        j = j3;
    }
}

// ---------------------------------------------------------------------------
// Methods

/// Splits a token range into two printed halves.
proof fn lemma_tv_split(toks: Seq<Tok>, a: int, b: int, c: int)
    requires
        0 <= a <= b <= c <= toks.len(),
    ensures
        tv(toks.subrange(a, c)) == tv(toks.subrange(a, b)) + tv(toks.subrange(b, c)),
{
    assert(tv(toks.subrange(a, c)) =~= tv(toks.subrange(a, b)) + tv(toks.subrange(b, c)));
}

/// A one-token range prints to that token's value.
proof fn lemma_tv_one(toks: Seq<Tok>, a: int)
    requires
        0 <= a < toks.len(),
    ensures
        tv(toks.subrange(a, a + 1)) == seq![toks[a]@],
{
    assert(tv(toks.subrange(a, a + 1)) =~= seq![toks[a]@]);
}

/// Whether some token in `[a, b)` is the identifier `self`.
pub open spec fn has_self(toks: Seq<Tok>, a: int, b: int) -> bool {
    exists|k: int| a <= k < b && is_id(#[trigger] toks[k], "self"@)
}

/// Where the receiver ends: `self`, `mut self`, or `&` with an optional
/// lifetime, optional `mut`, and `self`; `i` itself when none is present.
pub open spec fn recv_end(toks: Seq<Tok>, i: int) -> int {
    if 0 <= i < toks.len() && is_id(toks[i], "self"@) {
        i + 1
    } else if 0 <= i && i + 1 < toks.len() && is_id(toks[i], "mut"@) && is_id(
        toks[i + 1],
        "self"@,
    ) {
        i + 2
    } else if 0 <= i < toks.len() && is_p(toks[i], "&"@) {
        let k = if i + 1 < toks.len() && toks[i + 1].kind == TokKind::Life {
            i + 2
        } else {
            i + 1
        };
        let k2 = if k < toks.len() && is_id(toks[k], "mut"@) {
            k + 1
        } else {
            k
        };
        if k2 < toks.len() && is_id(toks[k2], "self"@) {
            k2 + 1
        } else {
            i
        }
    } else {
        i
    }
}

/// Where a non-empty parameter list ends, the closing parenthesis
/// included: `pattern : type` groups separated by commas, the pattern free
/// of `self`, with no trailing comma.
pub open spec fn params_end(toks: Seq<Tok>, j: int) -> Option<int>
    decreases toks.len() - j,
{
    match scan_end(toks, j, 0, ScanEnd::Colon) {
        Option::None => Option::None,
        Option::Some(e) => if e <= j {
            Option::None
        } else if has_self(toks, j, e) {
            Option::None
        } else if !(e < toks.len() && is_p(toks[e], ":"@)) {
            Option::None
        } else {
            match scan_end(toks, e + 1, 0, ScanEnd::CommaParen) {
                Option::None => Option::None,
                Option::Some(e2) => if e2 <= e + 1 {
                    Option::None
                } else if e2 < toks.len() && is_p(toks[e2], ")"@) {
                    Option::Some(e2 + 1)
                } else if e2 < toks.len() && is_p(toks[e2], ","@) {
                    if e2 + 1 < toks.len() && is_p(toks[e2 + 1], ")"@) {
                        Option::None
                    } else {
                        params_end(toks, e2 + 1)
                    }
                } else {
                    Option::None
                },
            }
        },
    }
}

/// Where a parenthesized input list ends (closing parenthesis included):
/// an optional receiver, a comma when parameters follow it, then the
/// parameters.
pub open spec fn inputs_end(toks: Seq<Tok>, i: int) -> Option<int> {
    let r = recv_end(toks, i);
    if r < toks.len() && is_p(toks[r], ")"@) {
        Option::Some(r + 1)
    } else if r != i {
        if r < toks.len() && is_p(toks[r], ","@) {
            params_end(toks, r + 1)
        } else {
            Option::None
        }
    } else {
        params_end(toks, i)
    }
}

/// Receiver tokens have one of the four fixed shapes of their mode.
pub open spec fn recv_shape_wf(recv: Recv, rt: Seq<Tok>) -> bool {
    match recv {
        Recv::Missing => rt.len() == 0,
        Recv::ByValue => (rt.len() == 1 && is_id(rt[0], "self"@)) || (rt.len() == 2 && is_id(
            rt[0],
            "mut"@,
        ) && is_id(rt[1], "self"@)),
        Recv::ByRef => (rt.len() == 2 && is_p(rt[0], "&"@) && is_id(rt[1], "self"@)) || (rt.len()
            == 3 && is_p(rt[0], "&"@) && rt[1].kind == TokKind::Life && is_id(rt[2], "self"@)),
        Recv::ByRefMut => (rt.len() == 3 && is_p(rt[0], "&"@) && is_id(rt[1], "mut"@) && is_id(
            rt[2],
            "self"@,
        )) || (rt.len() == 4 && is_p(rt[0], "&"@) && rt[1].kind == TokKind::Life && is_id(
            rt[2],
            "mut"@,
        ) && is_id(rt[3], "self"@)),
    }
}

/// A declared parameter is well formed: pattern and type are non-empty,
/// well-delimited segments, and the pattern holds no `self`.
pub open spec fn param_wf(p: Param) -> bool {
    &&& p.pat@.len() > 0
    &&& p.ty@.len() > 0
    &&& (forall|k: int| 0 <= k < p.pat@.len() ==> !is_id(#[trigger] p.pat@[k], "self"@))
    &&& seg_ok(p.pat@, ScanEnd::Colon)
    &&& seg_ok(p.ty@, ScanEnd::CommaParen)
}

/// Tests whether any token of `v` is the identifier `self`.
fn contains_self(v: &Vec<Tok>) -> (b: bool)
    ensures
        b == exists|k: int| 0 <= k < v@.len() && is_id(#[trigger] v@[k], "self"@),
{
    let n: usize = v.len();
    let mut i: usize = 0;
    while i < n
        invariant
            0 <= i <= n,
            n == v@.len(),
            forall|k: int| 0 <= k < i ==> !is_id(#[trigger] v@[k], "self"@),
        decreases n - i,
    {
        if id_is(&v[i], "self") {
            return true;
        }
        i = i + 1;
    }
    false
}

/// Parses the inside of a parenthesized input list, consuming the closing
/// parenthesis: an optional receiver (`self`, `mut self`, `&self`,
/// `&mut self`, with an optional receiver lifetime), then comma-separated
/// `pattern: type` parameters.
#[verifier::rlimit(100)]
#[verifier::spinoff_prover]
fn parse_inputs(toks: &Vec<Tok>, i: usize) -> (r: Result<(Recv, Vec<Tok>, Vec<Param>, usize), GenErr>)
    requires
        i <= toks@.len(),
    ensures
        r matches Ok(p) ==> i <= p.3 <= toks@.len() && tv(toks@.subrange(i as int, p.3 as int))
            == print_inputs_parts(p.0, p.1@, p.2@) + seq![g_pn(")"@)] && (p.0 == Recv::Missing
            <==> p.1@.len() == 0),
        r is Ok <==> inputs_end(toks@, i as int) is Some,
        r matches Ok(p) ==> inputs_end(toks@, i as int) == Option::Some(p.3 as int),
        r matches Ok(p) ==> recv_shape_wf(p.0, p.1@) && (forall|k: int|
            0 <= k < p.2@.len() ==> param_wf(#[trigger] p.2@[k])),
        r matches Err(e) ==> e == GenErr::Parse,
{
    let n: usize = toks.len();
    let mut j: usize = i;
    let mut recv: Recv = Recv::Missing;
    let mut recv_toks: Vec<Tok> = Vec::new();
    // receiver
    if at_id(toks, j, "self") {
        recv = Recv::ByValue;
        recv_toks.push(dup_tok(&toks[j]));
        j = j + 1;
    } else if at_id(toks, j, "mut") && at_id(toks, j + 1, "self") {
        recv = Recv::ByValue;
        recv_toks.push(dup_tok(&toks[j]));
        recv_toks.push(dup_tok(&toks[j + 1]));
        j = j + 2;
    } else if at_p(toks, j, "&") {
        let mut k: usize = j + 1;
        if k < n && toks[k].kind == TokKind::Life {
            k = k + 1;
        }
        let has_mut = at_id(toks, k, "mut");
        let k2: usize = if has_mut {
            k + 1
        } else {
            k
        };
        if at_id(toks, k2, "self") {
            recv = if has_mut {
                Recv::ByRefMut
            } else {
                Recv::ByRef
            };
            let mut q: usize = j;
            while q < k2 + 1
                invariant
                    j <= q <= k2 + 1 <= n,
                    n == toks@.len(),
                    recv_toks@ == toks@.subrange(j as int, q as int),
                decreases k2 + 1 - q,
            {
                recv_toks.push(dup_tok(&toks[q]));
                proof {
                    assert(recv_toks@ =~= toks@.subrange(j as int, q + 1));
                }
                q = q + 1;
            }
            proof {
                assert(recv_end(toks@, i as int) == k2 + 1);
                assert(recv_shape_wf(recv, recv_toks@));
            }
            j = k2 + 1;
        }
    }
    proof {
        assert(recv_toks@ =~= toks@.subrange(i as int, j as int));
        assert((recv == Recv::Missing) <==> recv_toks@.len() == 0);
        assert(recv_end(toks@, i as int) == j as int);
        assert(recv_shape_wf(recv, recv_toks@));
    }
    // empty remainder
    if at_p(toks, j, ")") {
        let params: Vec<Param> = Vec::new();
        proof {
            lemma_tv_split(toks@, i as int, j as int, j + 1);
            lemma_tv_one(toks@, j as int);
            assert(tv(toks@.subrange(i as int, j + 1)) =~= print_inputs_parts(
                recv, recv_toks@, params@) + seq![g_pn(")"@)]);
            assert(inputs_end(toks@, i as int) == Option::Some(j + 1));
        }
        return Result::Ok((recv, recv_toks, params, j + 1));
    }
    // separator after a receiver
    if !(recv == Recv::Missing) {
        let j2 = match expect_p(toks, j, ",") {
            Result::Ok(j2) => j2,
            Result::Err(e) => {
                proof {
                    assert(inputs_end(toks@, i as int) is None);
                }
                return Result::Err(e);
            },
        };
        j = j2;
    }
    let ghost pstart = j as int;
    let ghost sep: Seq<GTok> = if recv != Recv::Missing {
        seq![g_pn(","@)]
    } else {
        Seq::<GTok>::empty()
    };
    proof {
        assert(tv(toks@.subrange(i as int, pstart)) =~= tv(recv_toks@) + sep);
        assert(inputs_end(toks@, i as int) == params_end(toks@, j as int));
    }
    // parameters
    let mut params: Vec<Param> = Vec::new();
    loop
        invariant
            i <= j <= n,
            n == toks@.len(),
            recv == Recv::Missing <==> recv_toks@.len() == 0,
            recv_shape_wf(recv, recv_toks@),
            inputs_end(toks@, i as int) == params_end(toks@, j as int),
            forall|k: int| 0 <= k < params@.len() ==> param_wf(#[trigger] params@[k]),
            tv(toks@.subrange(i as int, j as int)) == tv(recv_toks@) + sep + (if params@.len()
                == 0 {
                Seq::<GTok>::empty()
            } else {
                print_params(params@) + seq![g_pn(","@)]
            }),
            sep == (if recv != Recv::Missing {
                seq![g_pn(","@)]
            } else {
                Seq::<GTok>::empty()
            }),
        decreases n - j,
    {
        let (pat, j2) = match scan_toks(toks, j, ScanEnd::Colon) {
            Result::Ok(p) => p,
            Result::Err(e) => {
                proof {
                    assert(params_end(toks@, j as int) is None);
                }
                return Result::Err(e);
            },
        };
        if pat.len() == 0 {
            proof {
                assert(params_end(toks@, j as int) is None);
            }
            return Result::Err(GenErr::Parse);
        }
        let selfy = contains_self(&pat);
        proof {
            if selfy {
                let k0 = choose|k: int| 0 <= k < pat@.len() && is_id(#[trigger] pat@[k], "self"@);
                assert(toks@[j + k0] == pat@[k0]);
                assert(has_self(toks@, j as int, j2 as int));
            } else {
                assert forall|k: int| j <= k < j2 implies !is_id(
                    #[trigger] toks@[k],
                    "self"@,
                ) by {
                    assert(pat@[k - j] == toks@[k]);
                }
                assert(!has_self(toks@, j as int, j2 as int));
            }
        }
        if selfy {
            proof {
                assert(params_end(toks@, j as int) is None);
            }
            return Result::Err(GenErr::Parse);
        }
        let j3 = match expect_p(toks, j2, ":") {
            Result::Ok(x) => x,
            Result::Err(e) => {
                proof {
                    assert(params_end(toks@, j as int) is None);
                }
                return Result::Err(e);
            },
        };
        let (ty, j4) = match scan_toks(toks, j3, ScanEnd::CommaParen) {
            Result::Ok(p) => p,
            Result::Err(e) => {
                proof {
                    assert(params_end(toks@, j as int) is None);
                }
                return Result::Err(e);
            },
        };
        if ty.len() == 0 {
            proof {
                assert(params_end(toks@, j as int) is None);
            }
            return Result::Err(GenErr::Parse);
        }
        let prm = Param { pat, ty };
        let ghost pre = params@;
        params.push(prm);
        proof {
            assert(param_wf(prm));
            assert(params@.drop_last() =~= pre);
            assert(params@.last() == prm);
            lemma_tv_split(toks@, i as int, j as int, j2 as int);
            lemma_tv_split(toks@, i as int, j2 as int, j3 as int);
            lemma_tv_split(toks@, i as int, j3 as int, j4 as int);
            lemma_tv_one(toks@, j2 as int);
            assert(toks@[j2 as int]@ == g_pn(":"@));
            assert(tv(prm.pat@) =~= tv(toks@.subrange(j as int, j2 as int)));
            assert(tv(prm.ty@) =~= tv(toks@.subrange(j3 as int, j4 as int)));
            if pre.len() == 0 {
                assert(print_params(params@) == print_param(params@[0]));
                assert(params@[0] == prm);
            } else {
                assert(print_params(params@) == print_params(pre) + seq![g_pn(","@)] + print_param(
                    prm));
            }
            assert(tv(toks@.subrange(i as int, j4 as int)) =~= tv(recv_toks@) + sep + print_params(
                params@));
        }
        if at_p(toks, j4, ")") {
            proof {
                lemma_tv_split(toks@, i as int, j4 as int, j4 + 1);
                lemma_tv_one(toks@, j4 as int);
                assert(tv(toks@.subrange(i as int, j4 + 1)) =~= print_inputs_parts(
                    recv, recv_toks@, params@) + seq![g_pn(")"@)]);
                assert(params_end(toks@, j as int) == Option::Some(j4 + 1));
            }
            return Result::Ok((recv, recv_toks, params, j4 + 1));
        }
        let j5 = match expect_p(toks, j4, ",") {
            Result::Ok(x) => x,
            Result::Err(e) => {
                proof {
                    assert(params_end(toks@, j as int) is None);
                }
                return Result::Err(e);
            },
        };
        if at_p(toks, j5, ")") {
            proof {
                assert(params_end(toks@, j as int) is None);
            }
            return Result::Err(GenErr::Parse);
        }
        proof {
            assert(params_end(toks@, j as int) == params_end(toks@, j4 + 1));
            lemma_tv_split(toks@, i as int, j4 as int, j5 as int);
            lemma_tv_one(toks@, j4 as int);
            assert(toks@[j4 as int]@ == g_pn(","@));
            assert(tv(toks@.subrange(i as int, j5 as int)) =~= tv(recv_toks@) + sep + (print_params(
                params@) + seq![g_pn(","@)]));
        }
        j = j5;
    }
}

/// Where one method signature ends, its semicolon included: a `fn`-free
/// identifier run, `fn`, a name, optional generics, a parenthesized input
/// list, an optional `->` return type, and `;`.
pub open spec fn method_end(toks: Seq<Tok>, i: int) -> Option<int> {
    let q = quals_end(toks, i, "fn"@);
    if !(0 <= q < toks.len() && is_id(toks[q], "fn"@)) {
        Option::None
    } else if !(q + 1 < toks.len() && toks[q + 1].kind == TokKind::Ident) {
        Option::None
    } else {
        match generics_end(toks, q + 2) {
            Option::None => Option::None,
            Option::Some(g) => if !(g < toks.len() && is_p(toks[g], "("@)) {
                Option::None
            } else {
                match inputs_end(toks, g + 1) {
                    Option::None => Option::None,
                    Option::Some(p) => if p < toks.len() && is_p(toks[p], "->"@) {
                        match scan_end(toks, p + 1, 0, ScanEnd::Semi) {
                            Option::None => Option::None,
                            Option::Some(re) => if re <= p + 1 {
                                Option::None
                            } else if re < toks.len() && is_p(toks[re], ";"@) {
                                Option::Some(re + 1)
                            } else {
                                Option::None
                            },
                        }
                    } else if p < toks.len() && is_p(toks[p], ";"@) {
                        Option::Some(p + 1)
                    } else {
                        Option::None
                    },
                }
            },
        }
    }
}

/// Parses one method signature at `i`: a verbatim qualifier run, `fn`, the
/// name, optional generics, the input list, an optional return type, `;`.
/// On success the consumed tokens print back exactly and the signature is
/// well formed.
#[verifier::rlimit(100)]
#[verifier::spinoff_prover]
fn parse_method(toks: &Vec<Tok>, i: usize) -> (r: Result<(MethodSig, usize), GenErr>)
    requires
        i <= toks@.len(),
    ensures
        r matches Ok(p) ==> i <= p.1 <= toks@.len() && tv(toks@.subrange(i as int, p.1 as int))
            == print_method(p.0) && method_wf(p.0),
        r is Ok <==> method_end(toks@, i as int) is Some,
        r matches Ok(p) ==> method_end(toks@, i as int) == Option::Some(p.1 as int),
        r matches Err(e) ==> e == GenErr::Parse,
{
    let n: usize = toks.len();
    // qualifiers
    let mut quals: Vec<Tok> = Vec::new();
    let mut j: usize = i;
    while j < n && toks[j].kind == TokKind::Ident && !id_is(&toks[j], "fn")
        invariant
            i <= j <= n,
            n == toks@.len(),
            quals@ == toks@.subrange(i as int, j as int),
            quals_end(toks@, i as int, "fn"@) == quals_end(toks@, j as int, "fn"@),
            forall|k: int|
                0 <= k < quals@.len() ==> (#[trigger] quals@[k]).kind == TokKind::Ident && !is_id(
                    quals@[k],
                    "fn"@,
                ),
        decreases n - j,
    {
        quals.push(dup_tok(&toks[j]));
        proof {
            assert(quals@ =~= toks@.subrange(i as int, j + 1));
        }
        j = j + 1;
    }
    proof {
        assert(quals_end(toks@, i as int, "fn"@) == j as int);
    }
    if !at_id(toks, j, "fn") {
        proof {
            assert(method_end(toks@, i as int) is None);
        }
        return Result::Err(GenErr::Parse);
    }
    let ghost acc1 = tv(quals@) + seq![g_id("fn"@)];
    proof {
        lemma_tv_split(toks@, i as int, j as int, j + 1);
        lemma_tv_one(toks@, j as int);
        assert(tv(toks@.subrange(i as int, j + 1)) =~= acc1);
    }
    j = j + 1;
    // name
    if !(j < n && toks[j].kind == TokKind::Ident) {
        proof {
            assert(method_end(toks@, i as int) is None);
        }
        return Result::Err(GenErr::Parse);
    }
    let name = dup_tok(&toks[j]);
    let ghost acc2 = acc1 + seq![name@];
    proof {
        lemma_tv_split(toks@, i as int, j as int, j + 1);
        lemma_tv_one(toks@, j as int);
        assert(tv(toks@.subrange(i as int, j + 1)) =~= acc2);
    }
    j = j + 1;
    // generics
    let (generics, jg) = match parse_generics(toks, j) {
        Result::Ok(p) => p,
        Result::Err(e) => {
            proof {
                assert(method_end(toks@, i as int) is None);
            }
            return Result::Err(e);
        },
    };
    let ghost acc3 = acc2 + print_generics(generics);
    proof {
        lemma_tv_split(toks@, i as int, j as int, jg as int);
        assert(tv(toks@.subrange(i as int, jg as int)) =~= acc3);
    }
    j = jg;
    // inputs
    let jp = match expect_p(toks, j, "(") {
        Result::Ok(x) => x,
        Result::Err(e) => {
            proof {
                assert(method_end(toks@, i as int) is None);
            }
            return Result::Err(e);
        },
    };
    let ghost acc4 = acc3 + seq![g_pn("("@)];
    proof {
        lemma_tv_split(toks@, i as int, j as int, jp as int);
        lemma_tv_one(toks@, j as int);
        assert(tv(toks@.subrange(i as int, jp as int)) =~= acc4);
    }
    let (recv, recv_toks, params, ji) = match parse_inputs(toks, jp) {
        Result::Ok(p) => p,
        Result::Err(e) => {
            proof {
                assert(method_end(toks@, i as int) is None);
            }
            return Result::Err(e);
        },
    };
    let ghost acc5 = acc4 + print_inputs_parts(recv, recv_toks@, params@) + seq![g_pn(")"@)];
    proof {
        lemma_tv_split(toks@, i as int, jp as int, ji as int);
        assert(tv(toks@.subrange(i as int, ji as int)) =~= acc5);
    }
    j = ji;
    // return type
    let ret: Option<Vec<Tok>>;
    if at_p(toks, j, "->") {
        let ghost ja = j as int;
        let (rt, jr) = match scan_toks(toks, j + 1, ScanEnd::Semi) {
            Result::Ok(p) => p,
            Result::Err(e) => {
                proof {
                    assert(method_end(toks@, i as int) is None);
                }
                return Result::Err(e);
            },
        };
        if rt.len() == 0 {
            proof {
                assert(jr == ja + 1);
                assert(method_end(toks@, i as int) is None);
            }
            return Result::Err(GenErr::Parse);
        }
        proof {
            lemma_tv_split(toks@, i as int, ja, ja + 1);
            lemma_tv_split(toks@, i as int, ja + 1, jr as int);
            lemma_tv_one(toks@, ja);
            assert(toks@[ja]@ == g_pn("->"@));
            assert(tv(toks@.subrange(i as int, jr as int)) =~= acc5 + (seq![g_pn("->"@)] + tv(
                toks@.subrange(ja + 1, jr as int))));
            assert(tv(rt@) =~= tv(toks@.subrange(ja + 1, jr as int)));
        }
        ret = Option::Some(rt);
        j = jr;
    } else {
        ret = Option::None;
    }
    let ghost acc6 = acc5 + print_ret(ret);
    proof {
        assert(tv(toks@.subrange(i as int, j as int)) =~= acc6);
    }
    // semicolon
    let js = match expect_p(toks, j, ";") {
        Result::Ok(x) => x,
        Result::Err(e) => {
            proof {
                assert(method_end(toks@, i as int) is None);
            }
            return Result::Err(e);
        },
    };
    proof {
        lemma_tv_split(toks@, i as int, j as int, js as int);
        lemma_tv_one(toks@, j as int);
        assert(method_end(toks@, i as int) == Option::Some(js as int));
    }
    let m = MethodSig { quals, name, generics, recv, recv_toks, params, ret };
    proof {
        assert(tv(toks@.subrange(i as int, js as int)) =~= print_method(m));
        assert(method_wf(m));
    }
    Result::Ok((m, js))
}

// ---------------------------------------------------------------------------
// Trait blocks and the whole specification

/// Whether an identifier run starting at `i` reaches a `fn` keyword, so
/// that a method signature begins here.
fn finds_fn(toks: &Vec<Tok>, i: usize) -> (b: bool)
    requires
        i <= toks@.len(),
    ensures
        b == finds_spec(toks@, i as int),
{
    let n: usize = toks.len();
    let mut j: usize = i;
    while j < n
        invariant
            i <= j <= n,
            n == toks@.len(),
            finds_spec(toks@, i as int) == finds_spec(toks@, j as int),
        decreases n - j,
    {
        if id_is(&toks[j], "fn") {
            return true;
        }
        if !(toks[j].kind == TokKind::Ident) {
            return false;
        }
        j = j + 1;
    }
    false
}

/// Where one trait item ends: an associated type, a method, or an
/// associated constant, each ending in `;`.
pub open spec fn item_end(toks: Seq<Tok>, j: int) -> Option<int> {
    if 0 <= j < toks.len() && is_id(toks[j], "type"@) {
        if !(j + 1 < toks.len() && toks[j + 1].kind == TokKind::Ident) {
            Option::None
        } else {
            match generics_end(toks, j + 2) {
                Option::None => Option::None,
                Option::Some(g) => if g < toks.len() && is_p(toks[g], "="@) {
                    match scan_end(toks, g + 1, 0, ScanEnd::Semi) {
                        Option::None => Option::None,
                        Option::Some(e) => if e <= g + 1 {
                            Option::None
                        } else if e < toks.len() && is_p(toks[e], ";"@) {
                            Option::Some(e + 1)
                        } else {
                            Option::None
                        },
                    }
                } else if g < toks.len() && is_p(toks[g], ";"@) {
                    Option::Some(g + 1)
                } else {
                    Option::None
                },
            }
        }
    } else if finds_spec(toks, j) {
        method_end(toks, j)
    } else if 0 <= j < toks.len() && is_id(toks[j], "const"@) {
        match scan_end(toks, j + 1, 0, ScanEnd::Semi) {
            Option::None => Option::None,
            Option::Some(e) => if e < toks.len() && is_p(toks[e], ";"@) {
                Option::Some(e + 1)
            } else {
                Option::None
            },
        }
    } else {
        Option::None
    }
}

/// Where a trait body's items end, the closing brace included.
pub open spec fn items_end(toks: Seq<Tok>, j: int) -> Option<int>
    decreases toks.len() - j,
{
    if 0 <= j < toks.len() && is_p(toks[j], "}"@) {
        Option::Some(j + 1)
    } else {
        match item_end(toks, j) {
            Option::None => Option::None,
            Option::Some(e) => if !(j < e <= toks.len()) {
                Option::None
            } else {
                items_end(toks, e)
            },
        }
    }
}

/// Where one trait block ends: a `trait`-free identifier run, `trait`, a
/// name, optional generics, and a braced item list.
pub open spec fn trait_end(toks: Seq<Tok>, i: int) -> Option<int> {
    let q = quals_end(toks, i, "trait"@);
    if !(0 <= q < toks.len() && is_id(toks[q], "trait"@)) {
        Option::None
    } else if !(q + 1 < toks.len() && toks[q + 1].kind == TokKind::Ident) {
        Option::None
    } else {
        match generics_end(toks, q + 2) {
            Option::None => Option::None,
            Option::Some(g) => if !(g < toks.len() && is_p(toks[g], "{"@)) {
                Option::None
            } else {
                items_end(toks, g + 1)
            },
        }
    }
}

/// Parses one trait block at `i`: a verbatim qualifier run, `trait`, the
/// name, optional generics, then braced items (methods, associated types,
/// associated constants).  On success the consumed tokens print back
/// exactly and the block is well formed.
#[verifier::rlimit(100)]
#[verifier::spinoff_prover]
#[verifier::loop_isolation(false)]
fn parse_trait(toks: &Vec<Tok>, i: usize) -> (r: Result<(TraitBlock, usize), GenErr>)
    requires
        i <= toks@.len(),
    ensures
        r matches Ok(p) ==> i <= p.1 <= toks@.len() && tv(toks@.subrange(i as int, p.1 as int))
            == print_trait(p.0) && trait_wf(p.0),
        r is Ok <==> trait_end(toks@, i as int) is Some,
        r matches Ok(p) ==> trait_end(toks@, i as int) == Option::Some(p.1 as int),
        r matches Err(e) ==> e == GenErr::Parse,
{
    let n: usize = toks.len();
    // qualifiers
    let mut quals: Vec<Tok> = Vec::new();
    let mut j: usize = i;
    while j < n && toks[j].kind == TokKind::Ident && !id_is(&toks[j], "trait")
        invariant
            i <= j <= n,
            n == toks@.len(),
            quals@ == toks@.subrange(i as int, j as int),
            quals_end(toks@, i as int, "trait"@) == quals_end(toks@, j as int, "trait"@),
            forall|k: int|
                0 <= k < quals@.len() ==> (#[trigger] quals@[k]).kind == TokKind::Ident && !is_id(
                    quals@[k],
                    "trait"@,
                ),
        decreases n - j,
    {
        quals.push(dup_tok(&toks[j]));
        proof {
            assert(quals@ =~= toks@.subrange(i as int, j + 1));
        }
        j = j + 1;
    }
    proof {
        assert(quals_end(toks@, i as int, "trait"@) == j as int);
    }
    if !at_id(toks, j, "trait") {
        proof {
            assert(trait_end(toks@, i as int) is None);
        }
        return Result::Err(GenErr::Parse);
    }
    let ghost acc1 = tv(quals@) + seq![g_id("trait"@)];
    proof {
        lemma_tv_split(toks@, i as int, j as int, j + 1);
        lemma_tv_one(toks@, j as int);
        assert(tv(toks@.subrange(i as int, j + 1)) =~= acc1);
    }
    j = j + 1;
    // name
    if !(j < n && toks[j].kind == TokKind::Ident) {
        proof {
            assert(trait_end(toks@, i as int) is None);
        }
        return Result::Err(GenErr::Parse);
    }
    let name = dup_tok(&toks[j]);
    let ghost acc2 = acc1 + seq![name@];
    proof {
        lemma_tv_split(toks@, i as int, j as int, j + 1);
        lemma_tv_one(toks@, j as int);
        assert(tv(toks@.subrange(i as int, j + 1)) =~= acc2);
    }
    j = j + 1;
    // generics
    let (generics, jg) = match parse_generics(toks, j) {
        Result::Ok(p) => p,
        Result::Err(e) => {
            proof {
                assert(trait_end(toks@, i as int) is None);
            }
            return Result::Err(e);
        },
    };
    let ghost acc3 = acc2 + print_generics(generics);
    proof {
        lemma_tv_split(toks@, i as int, j as int, jg as int);
        assert(tv(toks@.subrange(i as int, jg as int)) =~= acc3);
    }
    j = jg;
    // body
    let jb = match expect_p(toks, j, "{") {
        Result::Ok(x) => x,
        Result::Err(e) => {
            proof {
                assert(trait_end(toks@, i as int) is None);
            }
            return Result::Err(e);
        },
    };
    let ghost acc4 = acc3 + seq![g_pn("{"@)];
    proof {
        lemma_tv_split(toks@, i as int, j as int, jb as int);
        lemma_tv_one(toks@, j as int);
        assert(tv(toks@.subrange(i as int, jb as int)) =~= acc4);
        assert(trait_end(toks@, i as int) == items_end(toks@, jb as int));
    }
    j = jb;
    let mut items: Vec<TraitItem> = Vec::new();
    loop
        invariant
            i <= j <= n,
            n == toks@.len(),
            trait_end(toks@, i as int) == items_end(toks@, j as int),
            tv(toks@.subrange(i as int, j as int)) == acc4 + print_items(items@),
            forall|k: int| 0 <= k < items@.len() ==> item_wf(#[trigger] items@[k]),
            generics_wf(generics),
        decreases n - j,
    {
        if at_p(toks, j, "}") {
            proof {
                lemma_tv_split(toks@, i as int, j as int, j + 1);
                lemma_tv_one(toks@, j as int);
                assert(toks@[j as int]@ == g_pn("}"@));
                assert(items_end(toks@, j as int) == Option::Some(j + 1));
            }
            let t = TraitBlock { quals, name, generics, items };
            proof {
                assert(tv(toks@.subrange(i as int, j + 1)) =~= print_trait(t));
                assert(trait_wf(t));
            }
            return Result::Ok((t, j + 1));
        }
        let it: TraitItem;
        let ghost jstart = j as int;
        if at_id(toks, j, "type") {
            let ghost jt = j as int;
            j = j + 1;
            if !(j < n && toks[j].kind == TokKind::Ident) {
                proof {
                    assert(item_end(toks@, jstart) is None);
                    assert(items_end(toks@, jstart) is None);
                }
                return Result::Err(GenErr::Parse);
            }
            let aname = dup_tok(&toks[j]);
            let ghost jn = j as int;
            j = j + 1;
            let (agen, ja) = match parse_generics(toks, j) {
                Result::Ok(p) => p,
                Result::Err(e) => {
                    proof {
                        assert(item_end(toks@, jstart) is None);
                        assert(items_end(toks@, jstart) is None);
                    }
                    return Result::Err(e);
                },
            };
            j = ja;
            let binding: Option<Vec<Tok>>;
            if at_p(toks, j, "=") {
                let ghost je = j as int;
                let (b, jv) = match scan_toks(toks, j + 1, ScanEnd::Semi) {
                    Result::Ok(p) => p,
                    Result::Err(e) => {
                        proof {
                            assert(item_end(toks@, jstart) is None);
                            assert(items_end(toks@, jstart) is None);
                        }
                        return Result::Err(e);
                    },
                };
                if b.len() == 0 {
                    proof {
                        assert(jv == je + 1);
                        assert(item_end(toks@, jstart) is None);
                        assert(items_end(toks@, jstart) is None);
                    }
                    return Result::Err(GenErr::Parse);
                }
                proof {
                    lemma_tv_split(toks@, jstart, je, je + 1);
                    lemma_tv_split(toks@, jstart, je + 1, jv as int);
                    lemma_tv_one(toks@, je);
                }
                binding = Option::Some(b);
                j = jv;
            } else {
                binding = Option::None;
            }
            let js = match expect_p(toks, j, ";") {
                Result::Ok(x) => x,
                Result::Err(e) => {
                    proof {
                        assert(item_end(toks@, jstart) is None);
                        assert(items_end(toks@, jstart) is None);
                    }
                    return Result::Err(e);
                },
            };
            proof {
                lemma_tv_split(toks@, jstart, j as int, js as int);
                lemma_tv_one(toks@, j as int);
                lemma_tv_split(toks@, jstart, jt, jt + 1);
                lemma_tv_one(toks@, jt);
                lemma_tv_split(toks@, jstart, jn, jn + 1);
                lemma_tv_one(toks@, jn);
                lemma_tv_split(toks@, jstart, jn + 1, ja as int);
            }
            let a = AssocTy { name: aname, generics: agen, binding };
            it = TraitItem::Assoc(a);
            proof {
                assert(tv(toks@.subrange(jstart, js as int)) =~= print_item(it));
                assert(item_wf(it));
                assert(item_end(toks@, jstart) == Option::Some(js as int));
            }
            j = js;
        } else if finds_fn(toks, j) {
            let (m, jm) = match parse_method(toks, j) {
                Result::Ok(p) => p,
                Result::Err(e) => {
                    proof {
                        assert(item_end(toks@, jstart) is None);
                        assert(items_end(toks@, jstart) is None);
                    }
                    return Result::Err(e);
                },
            };
            it = TraitItem::Method(m);
            proof {
                assert(tv(toks@.subrange(jstart, jm as int)) =~= print_item(it));
                assert(item_wf(it));
                assert(item_end(toks@, jstart) == Option::Some(jm as int));
                assert(tv(toks@.subrange(jstart, jm as int)).len() >= 2);
                assert(jm > jstart);
            }
            j = jm;
        } else if at_id(toks, j, "const") {
            let ghost jc = j as int;
            let (v, jv) = match scan_toks(toks, j + 1, ScanEnd::Semi) {
                Result::Ok(p) => p,
                Result::Err(e) => {
                    proof {
                        assert(item_end(toks@, jstart) is None);
                        assert(items_end(toks@, jstart) is None);
                    }
                    return Result::Err(e);
                },
            };
            let js = match expect_p(toks, jv, ";") {
                Result::Ok(x) => x,
                Result::Err(e) => {
                    proof {
                        assert(item_end(toks@, jstart) is None);
                        assert(items_end(toks@, jstart) is None);
                    }
                    return Result::Err(e);
                },
            };
            proof {
                lemma_tv_split(toks@, jstart, jc + 1, jv as int);
                lemma_tv_split(toks@, jstart, jv as int, js as int);
                lemma_tv_one(toks@, jc);
                lemma_tv_one(toks@, jv as int);
            }
            it = TraitItem::Konst(v);
            proof {
                assert(tv(toks@.subrange(jstart, js as int)) =~= print_item(it));
                assert(item_end(toks@, jstart) == Option::Some(js as int));
            }
            j = js;
        } else {
            proof {
                assert(item_end(toks@, jstart) is None);
                assert(items_end(toks@, jstart) is None);
            }
            return Result::Err(GenErr::Parse);
        }
        let ghost pre = items@;
        items.push(it);
        proof {
            assert(items@.drop_last() =~= pre);
            assert(items@.last() == it);
            lemma_tv_split(toks@, i as int, jstart, j as int);
            assert(tv(toks@.subrange(i as int, j as int)) =~= acc4 + print_items(items@));
            assert(items_end(toks@, jstart) == items_end(toks@, j as int));
        }
    }
}

/// Where a balanced parenthesized visibility argument ends.
pub open spec fn vis_paren_end(toks: Seq<Tok>, j: int, depth: int) -> Option<int>
    decreases toks.len() - j,
{
    if depth <= 0 {
        Option::Some(j)
    } else if j < 0 || j >= toks.len() {
        Option::None
    } else if is_p(toks[j], "("@) {
        vis_paren_end(toks, j + 1, depth + 1)
    } else if is_p(toks[j], ")"@) {
        vis_paren_end(toks, j + 1, depth - 1)
    } else {
        vis_paren_end(toks, j + 1, depth)
    }
}

/// Where the visibility ends: nothing, `pub`, or `pub` with a balanced
/// parenthesized argument.
pub open spec fn vis_end(toks: Seq<Tok>) -> Option<int> {
    if 0 < toks.len() && is_id(toks[0], "pub"@) {
        if 1 < toks.len() && is_p(toks[1], "("@) {
            vis_paren_end(toks, 2, 1)
        } else {
            Option::Some(1)
        }
    } else {
        Option::Some(0)
    }
}

/// How the free-method block ends, its closing brace included: methods
/// until `}`; a `type` or `const` item here is unsupported, anything else
/// is a parse failure.
pub open spec fn methods_res(toks: Seq<Tok>, j: int) -> Result<int, GenErr>
    decreases toks.len() - j,
{
    if 0 <= j < toks.len() && is_p(toks[j], "}"@) {
        Result::Ok(j + 1)
    } else if finds_spec(toks, j) {
        match method_end(toks, j) {
            Option::None => Result::Err(GenErr::Parse),
            Option::Some(e) => if !(j < e <= toks.len()) {
                Result::Err(GenErr::Parse)
            } else {
                methods_res(toks, e)
            },
        }
    } else if 0 <= j < toks.len() && (is_id(toks[j], "type"@) || is_id(toks[j], "const"@)) {
        Result::Err(GenErr::UnsupportedItem)
    } else {
        Result::Err(GenErr::Parse)
    }
}

/// Whether trait blocks fill the remaining tokens exactly.
pub open spec fn traits_end_ok(toks: Seq<Tok>, j: int) -> bool
    decreases toks.len() - j,
{
    if j >= toks.len() {
        true
    } else {
        match trait_end(toks, j) {
            Option::None => false,
            Option::Some(e) => if !(j < e <= toks.len()) {
                false
            } else {
                traits_end_ok(toks, e)
            },
        }
    }
}

/// The outcome of parsing a whole token sequence: conformance to the
/// grammar, or the exact diagnostic on which parsing halts.
pub open spec fn parse_outcome(toks: Seq<Tok>) -> Result<(), GenErr> {
    match vis_end(toks) {
        Option::None => Result::Err(GenErr::Parse),
        Option::Some(v) => if !(v < toks.len() && toks[v].kind == TokKind::Ident) {
            Result::Err(GenErr::Parse)
        } else {
            match generics_end(toks, v + 1) {
                Option::None => Result::Err(GenErr::Parse),
                Option::Some(g) => if !(g < toks.len() && is_p(toks[g], "{"@)) {
                    Result::Err(GenErr::Parse)
                } else {
                    match methods_res(toks, g + 1) {
                        Result::Err(e) => Result::Err(e),
                        Result::Ok(me) => if traits_end_ok(toks, me) {
                            Result::Ok(())
                        } else {
                            Result::Err(GenErr::Parse)
                        },
                    }
                },
            }
        },
    }
}

/// Parses a whole mock specification: visibility, name, optional generics,
/// the braced free-method block, then any number of trait blocks.  On
/// success the token sequence prints back exactly from the result; a
/// non-method item in the free-method block is reported as unsupported.
/// Parses the free-method block's contents and its closing brace.
#[verifier::rlimit(100)]
#[verifier::spinoff_prover]
fn parse_free_block(toks: &Vec<Tok>, jb: usize) -> (r: Result<(Vec<MethodSig>, usize), GenErr>)
    requires
        jb <= toks@.len(),
    ensures
        r matches Ok(p) ==> jb <= p.1 <= toks@.len() && tv(toks@.subrange(jb as int, p.1 as int))
            == print_methods(p.0@) + seq![g_pn("}"@)] && (forall|k: int|
            0 <= k < p.0@.len() ==> method_wf(#[trigger] p.0@[k])),
        r is Ok <==> methods_res(toks@, jb as int) is Ok,
        r matches Ok(p) ==> methods_res(toks@, jb as int) == Result::<int, GenErr>::Ok(p.1 as int),
        r matches Err(e) ==> methods_res(toks@, jb as int) == Result::<int, GenErr>::Err(e) && (e
            == GenErr::Parse || e == GenErr::UnsupportedItem),
{
    let n: usize = toks.len();
    let mut j: usize = jb;
    let mut methods: Vec<MethodSig> = Vec::new();
    proof {
        assert(tv(toks@.subrange(jb as int, jb as int)) =~= print_methods(methods@));
    }
    loop
        invariant
            jb <= j <= n,
            n == toks@.len(),
            methods_res(toks@, jb as int) == methods_res(toks@, j as int),
            tv(toks@.subrange(jb as int, j as int)) == print_methods(methods@),
            forall|k: int| 0 <= k < methods@.len() ==> method_wf(#[trigger] methods@[k]),
        decreases n - j,
    {
        if at_p(toks, j, "}") {
            proof {
                assert(methods_res(toks@, j as int) == Result::<int, GenErr>::Ok(j + 1));
                lemma_tv_split(toks@, jb as int, j as int, j + 1);
                lemma_tv_one(toks@, j as int);
                assert(toks@[j as int]@ == g_pn("}"@));
                assert(tv(toks@.subrange(jb as int, j + 1)) =~= print_methods(methods@) + seq![
                    g_pn("}"@),
                ]);
            }
            return Result::Ok((methods, j + 1));
        }
        if finds_fn(toks, j) {
            let ghost jstart = j as int;
            let (m, jm) = match parse_method(toks, j) {
                Result::Ok(p) => p,
                Result::Err(e) => {
                    proof {
                        assert(methods_res(toks@, jstart) == Result::<int, GenErr>::Err(
                            GenErr::Parse));
                    }
                    return Result::Err(e);
                },
            };
            let ghost pre = methods@;
            methods.push(m);
            proof {
                assert(methods@.drop_last() =~= pre);
                assert(methods@.last() == m);
                lemma_tv_split(toks@, jb as int, jstart, jm as int);
                assert(tv(toks@.subrange(jb as int, jm as int)) =~= print_methods(methods@));
                assert(tv(toks@.subrange(jstart, jm as int)).len() >= 2);
                assert(jm > jstart);
                assert(methods_res(toks@, jstart) == methods_res(toks@, jm as int));
            }
            j = jm;
        } else if at_id(toks, j, "type") || at_id(toks, j, "const") {
            proof {
                assert(methods_res(toks@, j as int) == Result::<int, GenErr>::Err(
                    GenErr::UnsupportedItem));
            }
            return Result::Err(GenErr::UnsupportedItem);
        } else {
            proof {
                assert(methods_res(toks@, j as int) == Result::<int, GenErr>::Err(GenErr::Parse));
            }
            return Result::Err(GenErr::Parse);
        }
    }
}

/// Parses trait blocks up to the end of the tokens.
#[verifier::rlimit(100)]
#[verifier::spinoff_prover]
fn parse_trait_blocks(toks: &Vec<Tok>, me: usize) -> (r: Result<Vec<TraitBlock>, GenErr>)
    requires
        me <= toks@.len(),
    ensures
        r matches Ok(ts) ==> tv(toks@.subrange(me as int, toks@.len() as int)) == print_traits(
            ts@) && (forall|k: int| 0 <= k < ts@.len() ==> trait_wf(#[trigger] ts@[k])),
        r is Ok <==> traits_end_ok(toks@, me as int),
        r matches Err(e) ==> e == GenErr::Parse,
{
    let n: usize = toks.len();
    let mut j: usize = me;
    let mut traits: Vec<TraitBlock> = Vec::new();
    proof {
        assert(tv(toks@.subrange(me as int, me as int)) =~= print_traits(traits@));
    }
    while j < n
        invariant
            me <= j <= n,
            n == toks@.len(),
            traits_end_ok(toks@, me as int) == traits_end_ok(toks@, j as int),
            tv(toks@.subrange(me as int, j as int)) == print_traits(traits@),
            forall|k: int| 0 <= k < traits@.len() ==> trait_wf(#[trigger] traits@[k]),
        decreases n - j,
    {
        let ghost jstart = j as int;
        let (t, jt) = match parse_trait(toks, j) {
            Result::Ok(p) => p,
            Result::Err(e) => {
                proof {
                    assert(!traits_end_ok(toks@, jstart));
                }
                return Result::Err(e);
            },
        };
        if jt == j {
            proof {
                assert(!traits_end_ok(toks@, jstart));
            }
            return Result::Err(GenErr::Parse);
        }
        let ghost pre = traits@;
        traits.push(t);
        proof {
            assert(traits@.drop_last() =~= pre);
            assert(traits@.last() == t);
            lemma_tv_split(toks@, me as int, jstart, jt as int);
            assert(tv(toks@.subrange(me as int, jt as int)) =~= print_traits(traits@));
            assert(traits_end_ok(toks@, jstart) == traits_end_ok(toks@, jt as int));
        }
        j = jt;
    }
    proof {
        assert(traits_end_ok(toks@, j as int));
    }
    Result::Ok(traits)
}

/// Parses a whole mock specification: visibility, name, optional generics,
/// the braced free-method block, then any number of trait blocks.  On
/// success the token sequence prints back exactly from the well-formed
/// result; success is owed exactly on grammar-conforming input
/// (`parse_outcome` is `Ok`), and on failure the reported diagnostic is
/// exactly the outcome's.
#[verifier::rlimit(100)]
#[verifier::spinoff_prover]
pub fn parse_spec(toks: &Vec<Tok>) -> (r: Result<MockSpec, GenErr>)
    ensures
        r matches Ok(m) ==> tv(toks@) == print_spec(m) && spec_wf(m),
        r is Ok <==> parse_outcome(toks@) is Ok,
        r matches Err(e) ==> parse_outcome(toks@) == Result::<(), GenErr>::Err(e),
        r matches Err(e) ==> e == GenErr::Parse || e == GenErr::UnsupportedItem,
{
    let n: usize = toks.len();
    // visibility
    let mut vis: Vec<Tok> = Vec::new();
    let mut j: usize = 0;
    if at_id(toks, 0, "pub") {
        vis.push(dup_tok(&toks[0]));
        j = 1;
        if at_p(toks, 1, "(") {
            vis.push(dup_tok(&toks[1]));
            let mut depth: usize = 1;
            j = 2;
            while depth > 0
                invariant
                    2 <= j <= n,
                    depth <= j,
                    n == toks@.len(),
                    vis@ == toks@.subrange(0, j as int),
                    vis@.len() >= 2,
                    is_id(vis@[0], "pub"@),
                    is_p(vis@[1], "("@),
                    depth == 0 ==> is_p(vis@[vis@.len() - 1], ")"@),
                    depth == 0 ==> vis@.len() >= 3,
                    vis_end(toks@) == vis_paren_end(toks@, j as int, depth as int),
                decreases n - j, depth,
            {
                if j >= n {
                    proof {
                        assert(vis_end(toks@) is None);
                        assert(parse_outcome(toks@) == Result::<(), GenErr>::Err(GenErr::Parse));
                    }
                    return Result::Err(GenErr::Parse);
                }
                if p_is(&toks[j], "(") {
                    if depth == usize::MAX {
                        proof {
                            assert(false);
                        }
                        return Result::Err(GenErr::Parse);
                    }
                    depth = depth + 1;
                } else if p_is(&toks[j], ")") {
                    depth = depth - 1;
                }
                vis.push(dup_tok(&toks[j]));
                proof {
                    assert(vis@ =~= toks@.subrange(0, j + 1));
                }
                j = j + 1;
            }
        }
    }
    proof {
        assert(vis@ =~= toks@.subrange(0, j as int));
        assert(vis_end(toks@) == Option::Some(j as int));
        assert(vis_wf(vis@));
    }
    // name
    if !(j < n && toks[j].kind == TokKind::Ident) {
        proof {
            assert(parse_outcome(toks@) == Result::<(), GenErr>::Err(GenErr::Parse));
        }
        return Result::Err(GenErr::Parse);
    }
    let name = dup_tok(&toks[j]);
    let ghost acc1 = tv(vis@) + seq![name@];
    proof {
        lemma_tv_split(toks@, 0, j as int, j + 1);
        lemma_tv_one(toks@, j as int);
        assert(tv(toks@.subrange(0, j + 1)) =~= acc1);
    }
    j = j + 1;
    // generics
    let (generics, jg) = match parse_generics(toks, j) {
        Result::Ok(p) => p,
        Result::Err(e) => {
            proof {
                assert(parse_outcome(toks@) == Result::<(), GenErr>::Err(GenErr::Parse));
            }
            return Result::Err(e);
        },
    };
    let ghost acc2 = acc1 + print_generics(generics);
    proof {
        lemma_tv_split(toks@, 0, j as int, jg as int);
        assert(tv(toks@.subrange(0, jg as int)) =~= acc2);
    }
    j = jg;
    // free-method block
    let jb = match expect_p(toks, j, "{") {
        Result::Ok(x) => x,
        Result::Err(e) => {
            proof {
                assert(parse_outcome(toks@) == Result::<(), GenErr>::Err(GenErr::Parse));
            }
            return Result::Err(e);
        },
    };
    let ghost acc3 = acc2 + seq![g_pn("{"@)];
    proof {
        lemma_tv_split(toks@, 0, j as int, jb as int);
        lemma_tv_one(toks@, j as int);
        assert(tv(toks@.subrange(0, jb as int)) =~= acc3);
    }
    let (methods, jc) = match parse_free_block(toks, jb) {
        Result::Ok(p) => p,
        Result::Err(e) => {
            proof {
                assert(parse_outcome(toks@) == Result::<(), GenErr>::Err(e));
            }
            return Result::Err(e);
        },
    };
    let ghost acc4 = acc3 + (print_methods(methods@) + seq![g_pn("}"@)]);
    proof {
        lemma_tv_split(toks@, 0, jb as int, jc as int);
        assert(tv(toks@.subrange(0, jc as int)) =~= acc4);
    }
    // trait blocks
    let traits = match parse_trait_blocks(toks, jc) {
        Result::Ok(ts) => ts,
        Result::Err(e) => {
            proof {
                assert(parse_outcome(toks@) == Result::<(), GenErr>::Err(GenErr::Parse));
            }
            return Result::Err(e);
        },
    };
    let m = MockSpec { vis, name, generics, methods, traits };
    proof {
        lemma_tv_split(toks@, 0, jc as int, n as int);
        assert(toks@.subrange(0, n as int) =~= toks@);
        assert(tv(toks@) =~= print_spec(m));
        assert(spec_wf(m));
        assert(parse_outcome(toks@) is Ok);
    }
    Result::Ok(m)
}

} // verus!
