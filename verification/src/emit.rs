//! Text emission.
//!
//! Generated source is a single character sequence in which every token is
//! followed by one space; `::` and `->` are single tokens, so multi-character
//! operators stay joined.  The spec functions here state the text of token
//! runs and joined lists, and the executable helpers append exactly that
//! text to an output buffer.

use vstd::prelude::*;
use vstd::string::StringExecFns;
use crate::ir::{Gp, Param, Tok};

verus! {

/// One space: the separator written after every token.
pub open spec fn sp() -> Seq<char> {
    " "@
}

/// The text of a token run: each token's text followed by one space.
pub open spec fn ttext(s: Seq<Tok>) -> Seq<char>
    decreases s.len(),
{
    if s.len() == 0 {
        Seq::empty()
    } else {
        ttext(s.drop_last()) + s.last().text@ + sp()
    }
}

/// The comma-separated type list of a parameter list.
pub open spec fn tys_text(ps: Seq<Param>) -> Seq<char>
    decreases ps.len(),
{
    if ps.len() == 0 {
        Seq::empty()
    } else if ps.len() == 1 {
        ttext(ps[0].ty@)
    } else {
        tys_text(ps.drop_last()) + ", "@ + ttext(ps.last().ty@)
    }
}

/// The comma-separated pattern list of a parameter list.
pub open spec fn pats_text(ps: Seq<Param>) -> Seq<char>
    decreases ps.len(),
{
    if ps.len() == 0 {
        Seq::empty()
    } else if ps.len() == 1 {
        ttext(ps[0].pat@)
    } else {
        pats_text(ps.drop_last()) + ", "@ + ttext(ps.last().pat@)
    }
}

/// The text of one declared parameter: pattern, colon, type.
pub open spec fn param_sig_text(p: Param) -> Seq<char> {
    ttext(p.pat@) + ": "@ + ttext(p.ty@)
}

/// The comma-separated declared parameter list.
pub open spec fn params_sig_text(ps: Seq<Param>) -> Seq<char>
    decreases ps.len(),
{
    if ps.len() == 0 {
        Seq::empty()
    } else if ps.len() == 1 {
        param_sig_text(ps[0])
    } else {
        params_sig_text(ps.drop_last()) + ", "@ + param_sig_text(ps.last())
    }
}

/// The comma-separated generic-parameter list, bounds included.
pub open spec fn gps_text(ps: Seq<Gp>) -> Seq<char>
    decreases ps.len(),
{
    if ps.len() == 0 {
        Seq::empty()
    } else if ps.len() == 1 {
        ttext(ps[0].toks@)
    } else {
        gps_text(ps.drop_last()) + ", "@ + ttext(ps.last().toks@)
    }
}

/// The comma-separated generic-parameter name list, bounds stripped.
pub open spec fn gnames_text(ps: Seq<Gp>) -> Seq<char>
    decreases ps.len(),
{
    if ps.len() == 0 {
        Seq::empty()
    } else if ps.len() == 1 {
        ps[0].name.text@ + sp()
    } else {
        gnames_text(ps.drop_last()) + ", "@ + ps.last().name.text@ + sp()
    }
}

/// The decimal digits of `n`.
pub open spec fn dig(n: int) -> Seq<char> {
    if n == 0 {
        "0"@
    } else if n == 1 {
        "1"@
    } else if n == 2 {
        "2"@
    } else if n == 3 {
        "3"@
    } else if n == 4 {
        "4"@
    } else if n == 5 {
        "5"@
    } else if n == 6 {
        "6"@
    } else if n == 7 {
        "7"@
    } else if n == 8 {
        "8"@
    } else {
        "9"@
    }
}

/// The decimal text of `n`.
pub open spec fn dec_text(n: int) -> Seq<char>
    decreases n,
{
    if n < 10 {
        dig(n)
    } else {
        dec_text(n / 10) + dig(n % 10)
    }
}

/// Appends a string slice.
pub fn app(out: &mut String, s: &str)
    ensures
        final(out)@ == old(out)@ + s@,
{
    out.append(s);
}

/// Appends one token and its trailing space.
pub fn app_tok(out: &mut String, t: &Tok)
    ensures
        final(out)@ == old(out)@ + t.text@ + sp(),
{
    out.append(t.text.as_str());
    out.append(" ");
}

/// Appends a token run.
pub fn app_toks(out: &mut String, ts: &Vec<Tok>)
    ensures
        final(out)@ == old(out)@ + ttext(ts@),
{
    let n: usize = ts.len();
    let mut i: usize = 0;
    proof {
        assert(out@ =~= old(out)@ + ttext(ts@.take(0)));
    }
    while i < n
        invariant
            0 <= i <= n,
            n == ts@.len(),
            out@ == old(out)@ + ttext(ts@.take(i as int)),
        decreases n - i,
    {
        app_tok(out, &ts[i]);
        proof {
            assert(ts@.take(i + 1).drop_last() =~= ts@.take(i as int));
            assert(ts@.take(i + 1).last() == ts@[i as int]);
            assert(ttext(ts@.take(i + 1)) == ttext(ts@.take(i as int)) + ts@[i as int].text@
                + sp());
        }
        i = i + 1;
    }
    proof {
        assert(ts@.take(n as int) =~= ts@);
    }
}

/// Appends the comma-separated type list of `ps`.
pub fn app_tys(out: &mut String, ps: &Vec<Param>)
    ensures
        final(out)@ == old(out)@ + tys_text(ps@),
{
    let n: usize = ps.len();
    let mut i: usize = 0;
    proof {
        assert(out@ =~= old(out)@ + tys_text(ps@.take(0)));
    }
    while i < n
        invariant
            0 <= i <= n,
            n == ps@.len(),
            out@ == old(out)@ + tys_text(ps@.take(i as int)),
        decreases n - i,
    {
        if i > 0 {
            app(out, ", ");
        }
        app_toks(out, &ps[i].ty);
        proof {
            assert(ps@.take(i + 1).drop_last() =~= ps@.take(i as int));
            assert(ps@.take(i + 1).last() == ps@[i as int]);
            if i == 0 {
                assert(tys_text(ps@.take(1)) == ttext(ps@[0].ty@));
                assert(out@ =~= old(out)@ + tys_text(ps@.take(1)));
            } else {
                assert(tys_text(ps@.take(i + 1)) == tys_text(ps@.take(i as int)) + ", "@
                    + ttext(ps@[i as int].ty@));
                assert(out@ =~= old(out)@ + tys_text(ps@.take(i + 1)));
            }
        }
        i = i + 1;
    }
    proof {
        assert(ps@.take(n as int) =~= ps@);
    }
}

/// Appends the comma-separated pattern list of `ps`.
pub fn app_pats(out: &mut String, ps: &Vec<Param>)
    ensures
        final(out)@ == old(out)@ + pats_text(ps@),
{
    let n: usize = ps.len();
    let mut i: usize = 0;
    proof {
        assert(out@ =~= old(out)@ + pats_text(ps@.take(0)));
    }
    while i < n
        invariant
            0 <= i <= n,
            n == ps@.len(),
            out@ == old(out)@ + pats_text(ps@.take(i as int)),
        decreases n - i,
    {
        if i > 0 {
            app(out, ", ");
        }
        app_toks(out, &ps[i].pat);
        proof {
            assert(ps@.take(i + 1).drop_last() =~= ps@.take(i as int));
            assert(ps@.take(i + 1).last() == ps@[i as int]);
            if i == 0 {
                assert(pats_text(ps@.take(1)) == ttext(ps@[0].pat@));
                assert(out@ =~= old(out)@ + pats_text(ps@.take(1)));
            } else {
                assert(pats_text(ps@.take(i + 1)) == pats_text(ps@.take(i as int)) + ", "@
                    + ttext(ps@[i as int].pat@));
                assert(out@ =~= old(out)@ + pats_text(ps@.take(i + 1)));
            }
        }
        i = i + 1;
    }
    proof {
        assert(ps@.take(n as int) =~= ps@);
    }
}

/// Appends the comma-separated declared parameter list of `ps`.
pub fn app_params_sig(out: &mut String, ps: &Vec<Param>)
    ensures
        final(out)@ == old(out)@ + params_sig_text(ps@),
{
    let n: usize = ps.len();
    let mut i: usize = 0;
    proof {
        assert(out@ =~= old(out)@ + params_sig_text(ps@.take(0)));
    }
    while i < n
        invariant
            0 <= i <= n,
            n == ps@.len(),
            out@ == old(out)@ + params_sig_text(ps@.take(i as int)),
        decreases n - i,
    {
        if i > 0 {
            app(out, ", ");
        }
        app_toks(out, &ps[i].pat);
        app(out, ": ");
        app_toks(out, &ps[i].ty);
        proof {
            assert(ps@.take(i + 1).drop_last() =~= ps@.take(i as int));
            assert(ps@.take(i + 1).last() == ps@[i as int]);
            if i == 0 {
                assert(params_sig_text(ps@.take(1)) == param_sig_text(ps@[0]));
                assert(out@ =~= old(out)@ + params_sig_text(ps@.take(1)));
            } else {
                assert(params_sig_text(ps@.take(i + 1)) == params_sig_text(ps@.take(i as int))
                    + ", "@ + param_sig_text(ps@[i as int]));
                assert(out@ =~= old(out)@ + params_sig_text(ps@.take(i + 1)));
            }
        }
        i = i + 1;
    }
    proof {
        assert(ps@.take(n as int) =~= ps@);
    }
}

/// Appends the comma-separated generic-parameter list of `ps`.
pub fn app_gps(out: &mut String, ps: &Vec<Gp>)
    ensures
        final(out)@ == old(out)@ + gps_text(ps@),
{
    let n: usize = ps.len();
    let mut i: usize = 0;
    proof {
        assert(out@ =~= old(out)@ + gps_text(ps@.take(0)));
    }
    while i < n
        invariant
            0 <= i <= n,
            n == ps@.len(),
            out@ == old(out)@ + gps_text(ps@.take(i as int)),
        decreases n - i,
    {
        if i > 0 {
            app(out, ", ");
        }
        app_toks(out, &ps[i].toks);
        proof {
            assert(ps@.take(i + 1).drop_last() =~= ps@.take(i as int));
            assert(ps@.take(i + 1).last() == ps@[i as int]);
            if i == 0 {
                assert(gps_text(ps@.take(1)) == ttext(ps@[0].toks@));
                assert(out@ =~= old(out)@ + gps_text(ps@.take(1)));
            } else {
                assert(gps_text(ps@.take(i + 1)) == gps_text(ps@.take(i as int)) + ", "@
                    + ttext(ps@[i as int].toks@));
                assert(out@ =~= old(out)@ + gps_text(ps@.take(i + 1)));
            }
        }
        i = i + 1;
    }
    proof {
        assert(ps@.take(n as int) =~= ps@);
    }
}

/// Appends the comma-separated generic-parameter name list of `ps`.
pub fn app_gnames(out: &mut String, ps: &Vec<Gp>)
    ensures
        final(out)@ == old(out)@ + gnames_text(ps@),
{
    let n: usize = ps.len();
    let mut i: usize = 0;
    proof {
        assert(out@ =~= old(out)@ + gnames_text(ps@.take(0)));
    }
    while i < n
        invariant
            0 <= i <= n,
            n == ps@.len(),
            out@ == old(out)@ + gnames_text(ps@.take(i as int)),
        decreases n - i,
    {
        if i > 0 {
            app(out, ", ");
        }
        app_tok(out, &ps[i].name);
        proof {
            assert(ps@.take(i + 1).drop_last() =~= ps@.take(i as int));
            assert(ps@.take(i + 1).last() == ps@[i as int]);
            if i == 0 {
                assert(gnames_text(ps@.take(1)) == ps@[0].name.text@ + sp());
                assert(out@ =~= old(out)@ + gnames_text(ps@.take(1)));
            } else {
                assert(gnames_text(ps@.take(i + 1)) == gnames_text(ps@.take(i as int)) + ", "@
                    + ps@[i as int].name.text@ + sp());
                assert(out@ =~= old(out)@ + gnames_text(ps@.take(i + 1)));
            }
        }
        i = i + 1;
    }
    proof {
        assert(ps@.take(n as int) =~= ps@);
    }
}

/// Appends the decimal text of `n`.
pub fn app_dec(out: &mut String, n: usize)
    ensures
        final(out)@ == old(out)@ + dec_text(n as int),
    decreases n,
{
    if n >= 10 {
        app_dec(out, n / 10);
    }
    let d: usize = n % 10;
    if d == 0 {
        app(out, "0");
    } else if d == 1 {
        app(out, "1");
    } else if d == 2 {
        app(out, "2");
    } else if d == 3 {
        app(out, "3");
    } else if d == 4 {
        app(out, "4");
    } else if d == 5 {
        app(out, "5");
    } else if d == 6 {
        app(out, "6");
    } else if d == 7 {
        app(out, "7");
    } else if d == 8 {
        app(out, "8");
    } else {
        app(out, "9");
    }
}

} // verus!
