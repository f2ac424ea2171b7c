//! Generation of the mock type's source text.
//!
//! Each spec function below states the exact text of one generated piece;
//! the executable emitters append exactly that text.  Output is assembled
//! in the original's order: the mock structure (with its process-wide
//! storage for static methods), one sub-structure per trait, one inherent
//! implementation block holding the forwarding/configuration method pairs
//! of the free methods, and per trait one trait implementation block of
//! forwarding methods plus one inherent block of configuration methods.

use vstd::prelude::*;
use vstd::string::StringExecFns;
use crate::classify::{classify, klass_of, m_err, m_generic, m_static, ret_inner, ret_is_ref, shape_of};
use crate::emit::{app, app_dec, app_gnames, app_gps, app_params_sig, app_pats, app_tok, app_toks, app_tys, dec_text, gnames_text, gps_text, params_sig_text, pats_text, sp, ttext, tys_text};
use crate::ir::{AssocTy, GenErr, Generics, Gp, GpKind, Klass, MethodSig, MockSpec, Param, Recv, StoreKind, Tok, TraitBlock, TraitItem};

verus! {

// ---------------------------------------------------------------------------
// Names and small pieces

/// The name of the generated mock type for `name`.
pub open spec fn mock_text(name: Seq<char>) -> Seq<char> {
    "Mock"@ + name
}

/// The name of the nested sub-structure for trait `tr` of owner `owner`.
pub open spec fn sub_mock_text(owner: Seq<char>, tr: Seq<char>) -> Seq<char> {
    "Mock"@ + owner + "_"@ + tr
}

/// The base name of the expectation container for a storage kind.
pub open spec fn base_text(k: StoreKind) -> Seq<char> {
    match k {
        StoreKind::Value => "Expectation"@,
        StoreKind::RefReturning => "RefExpectation"@,
        StoreKind::MutRefReturning => "RefMutExpectation"@,
    }
}

/// The runtime call selector of a storage kind: `call_mut` for mutable
/// references, `call` otherwise.
pub open spec fn sel_text(k: StoreKind) -> Seq<char> {
    if k == StoreKind::MutRefReturning {
        "call_mut "@
    } else {
        "call "@
    }
}

/// The output type: the return type with one outer reference stripped,
/// or unit when there is no return type.
pub open spec fn output_text(ret: Option<Vec<Tok>>) -> Seq<char> {
    match ret {
        Option::None => "( ) "@,
        Option::Some(v) => if ret_is_ref(v@) {
            ttext(ret_inner(v@))
        } else {
            ttext(v@)
        },
    }
}

/// The input tuple type: all non-receiver parameter types in order.
pub open spec fn tuple_text(ps: Seq<Param>) -> Seq<char> {
    "( "@ + tys_text(ps) + ") "@
}

/// The `input, output` type-argument pair of a method.
pub open spec fn io_text(m: MethodSig) -> Seq<char> {
    tuple_text(m.params@) + ", "@ + output_text(m.ret)
}

/// The expectation-container type stored for a method: concrete and
/// parameterized by `(input, output)` when the method is not generic,
/// type-erased otherwise.
pub open spec fn expect_obj_text(m: MethodSig) -> Seq<char> {
    if m_generic(m) {
        ":: mockall :: Generic"@ + base_text(shape_of(m.ret)) + "s "@
    } else {
        ":: mockall :: "@ + base_text(shape_of(m.ret)) + "s < "@ + io_text(m) + "> "@
    }
}

/// The expectation type handed out by a configuration method.
pub open spec fn expectation_text(k: StoreKind) -> Seq<char> {
    ":: mockall :: "@ + base_text(k) + sp()
}

/// Explicit type arguments for a generic method's call and configuration
/// sites; empty for non-generic methods.
pub open spec fn turbofish_text(m: MethodSig) -> Seq<char> {
    if m_generic(m) {
        ":: < "@ + io_text(m) + "> "@
    } else {
        Seq::empty()
    }
}

/// The name of the process-wide storage of a static method.
pub open spec fn static_name_text(mock: Seq<char>, sub: Option<Seq<char>>, meth: Seq<char>) -> Seq<char> {
    mock + "_"@ + (match sub {
        Option::Some(s) => s + "_"@,
        Option::None => Seq::empty(),
    }) + meth + "_expectation"@
}

/// Where a method's expectation container is found: the process-wide
/// storage for a static method, the trait sub-structure's field for a
/// trait method, the mock's own field otherwise.
pub open spec fn lvalue_text(m: MethodSig, mock: Seq<char>, sub: Option<Seq<char>>) -> Seq<char> {
    if m_static(m) {
        static_name_text(mock, sub, m.name.text@) + sp()
    } else {
        match sub {
            Option::Some(tr) => "self . "@ + tr + "_expectations . "@ + m.name.text@ + sp(),
            Option::None => "self . "@ + m.name.text@ + sp(),
        }
    }
}

// ---------------------------------------------------------------------------
// Generic-parameter lists

/// The full generic-parameter list, bounds included; empty when none.
pub open spec fn gfull_text(ps: Seq<Gp>) -> Seq<char> {
    if ps.len() == 0 {
        Seq::empty()
    } else {
        "< "@ + gps_text(ps) + "> "@
    }
}

/// The reduced generic-argument list: names only; empty when none.
pub open spec fn gred_text(ps: Seq<Gp>) -> Seq<char> {
    if ps.len() == 0 {
        Seq::empty()
    } else {
        "< "@ + gnames_text(ps) + "> "@
    }
}

/// The generic-parameter list of a static configuration method: the
/// method's own generics plus the explicit `'guard` lifetime of the lock
/// borrow.
pub open spec fn gguard_text(ps: Seq<Gp>) -> Seq<char> {
    if ps.len() == 0 {
        "< 'guard > "@
    } else {
        "< "@ + gps_text(ps) + ", 'guard > "@
    }
}

// ---------------------------------------------------------------------------
// Method texts

/// The separator between a receiver and the first declared parameter.
pub open spec fn inputs_sep_text(m: MethodSig) -> Seq<char> {
    if m.recv != Recv::Missing && m.params@.len() > 0 {
        ", "@
    } else {
        Seq::empty()
    }
}

/// The declared parameter list, receiver included, exactly as written.
pub open spec fn inputs_text(m: MethodSig) -> Seq<char> {
    ttext(m.recv_toks@) + inputs_sep_text(m) + params_sig_text(m.params@)
}

/// The declared return type, or nothing.
pub open spec fn ret_text(ret: Option<Vec<Tok>>) -> Seq<char> {
    match ret {
        Option::None => Seq::empty(),
        Option::Some(v) => "-> "@ + ttext(v@),
    }
}

/// The forwarding method's signature: the original signature reproduced
/// unchanged under the given visibility.
pub open spec fn msig_text(m: MethodSig, vis: Seq<char>) -> Seq<char> {
    vis + ttext(m.quals@) + "fn "@ + m.name.text@ + sp() + gfull_text(m.generics.params@) + "( "@
        + inputs_text(m) + ") "@ + ret_text(m.ret)
}

/// The forwarding method's body: looks the storage up (acquiring the
/// process-wide lock for a static method) and invokes the call selector on
/// the argument tuple, with explicit type arguments when generic.
pub open spec fn fwd_body_text(m: MethodSig, mock: Seq<char>, sub: Option<Seq<char>>) -> Seq<char> {
    "{ "@ + lvalue_text(m, mock, sub) + (if m_static(m) {
        ". lock ( ) . unwrap ( ) "@
    } else {
        Seq::empty()
    }) + ". "@ + sel_text(shape_of(m.ret)) + turbofish_text(m) + "( ( "@ + pats_text(m.params@)
        + ") ) } "@
}

/// One complete forwarding method.
pub open spec fn mock_meth_text(m: MethodSig, mock: Seq<char>, sub: Option<Seq<char>>, vis: Seq<char>) -> Seq<char> {
    msig_text(m, vis) + fwd_body_text(m, mock, sub)
}

/// One complete expectation-configuration method: for a static method a
/// guard-returning function with the explicit `'guard` lifetime, otherwise
/// a `&mut self` method returning a mutable handle into the container.
pub open spec fn expect_meth_text(m: MethodSig, mock: Seq<char>, sub: Option<Seq<char>>) -> Seq<char> {
    if m_static(m) {
        "pub fn expect_"@ + m.name.text@ + sp() + gguard_text(m.generics.params@)
            + "( ) -> :: mockall :: ExpectationGuard < 'guard , "@ + io_text(m)
            + "> { :: mockall :: ExpectationGuard :: new ( "@
            + static_name_text(mock, sub, m.name.text@) + sp() + ". lock ( ) . unwrap ( ) ) } "@
    } else {
        "pub fn expect_"@ + m.name.text@ + sp() + gfull_text(m.generics.params@)
            + "( & mut self ) -> & mut "@ + expectation_text(shape_of(m.ret)) + "< "@ + io_text(m)
            + "> { "@ + lvalue_text(m, mock, sub) + ". expect "@ + turbofish_text(m) + "( ) } "@
    }
}

// ---------------------------------------------------------------------------
// Emitters for the pieces above

/// The text of an optional trait-name argument.
pub open spec fn sub_view(sub: Option<&Tok>) -> Option<Seq<char>> {
    match sub {
        Option::Some(t) => Option::Some(t.text@),
        Option::None => Option::None,
    }
}

/// Appends a whole string.
pub fn app_str(out: &mut String, s: &String)
    ensures
        final(out)@ == old(out)@ + s@,
{
    out.append(s.as_str());
}

/// Appends a token's text without the trailing space.
pub fn app_text(out: &mut String, t: &Tok)
    ensures
        final(out)@ == old(out)@ + t.text@,
{
    out.append(t.text.as_str());
}

/// Appends the container base name of `k`.
fn app_base(out: &mut String, k: StoreKind)
    ensures
        final(out)@ == old(out)@ + base_text(k),
{
    match k {
        StoreKind::Value => app(out, "Expectation"),
        StoreKind::RefReturning => app(out, "RefExpectation"),
        StoreKind::MutRefReturning => app(out, "RefMutExpectation"),
    }
}

/// Appends the output type of `m`.
fn app_output(out: &mut String, m: &MethodSig)
    ensures
        final(out)@ == old(out)@ + output_text(m.ret),
{
    match &m.ret {
        Option::None => app(out, "( ) "),
        Option::Some(v) => {
            let is_ref = v.len() >= 1 && crate::ir::p_is(&v[0], "&");
            if is_ref {
                let has_lt = v.len() >= 2 && v[1].kind == crate::ir::TokKind::Life;
                let mi: usize = if has_lt {
                    2
                } else {
                    1
                };
                let is_mut = mi < v.len() && crate::ir::id_is(&v[mi], "mut");
                let start: usize = if is_mut {
                    mi + 1
                } else {
                    mi
                };
                let n: usize = v.len();
                let mut i: usize = start;
                proof {
                    assert(crate::classify::strip_len(v@) == start as int);
                    assert(ret_inner(v@) =~= v@.subrange(start as int, n as int));
                    assert(v@.subrange(start as int, start as int) =~= Seq::<Tok>::empty());
                    assert(out@ =~= old(out)@ + ttext(v@.subrange(start as int, i as int)));
                }
                while i < n
                    invariant
                        start <= i <= n,
                        n == v@.len(),
                        out@ == old(out)@ + ttext(v@.subrange(start as int, i as int)),
                    decreases n - i,
                {
                    app_tok(out, &v[i]);
                    proof {
                        assert(v@.subrange(start as int, i + 1).drop_last() =~= v@.subrange(
                            start as int, i as int));
                        assert(v@.subrange(start as int, i + 1).last() == v@[i as int]);
                    }
                    i = i + 1;
                }
                proof {
                    assert(output_text(m.ret) == ttext(v@.subrange(start as int, n as int)));
                }
            } else {
                app_toks(out, v);
            }
        },
    }
}

/// Appends the input tuple type of `m`.
fn app_tuple(out: &mut String, ps: &Vec<Param>)
    ensures
        final(out)@ == old(out)@ + tuple_text(ps@),
{
    app(out, "( ");
    app_tys(out, ps);
    app(out, ") ");
}

/// Appends the `input, output` pair of `m`.
fn app_io(out: &mut String, m: &MethodSig)
    ensures
        final(out)@ == old(out)@ + io_text(*m),
{
    app_tuple(out, &m.params);
    app(out, ", ");
    app_output(out, m);
}

/// Appends the stored container type of `m`.
fn app_expect_obj(out: &mut String, m: &MethodSig, c: Klass)
    requires
        c == klass_of(*m),
    ensures
        final(out)@ == old(out)@ + expect_obj_text(*m),
{
    if c.is_generic {
        app(out, ":: mockall :: Generic");
        app_base(out, c.kind);
        app(out, "s ");
    } else {
        app(out, ":: mockall :: ");
        app_base(out, c.kind);
        app(out, "s < ");
        app_io(out, m);
        app(out, "> ");
    }
}

/// Appends the turbofish of `m`, if generic.
fn app_turbofish(out: &mut String, m: &MethodSig, c: Klass)
    requires
        c == klass_of(*m),
    ensures
        final(out)@ == old(out)@ + turbofish_text(*m),
{
    if c.is_generic {
        app(out, ":: < ");
        app_io(out, m);
        app(out, "> ");
    }
}

/// Appends the full generic-parameter list of `ps`.
pub fn app_gfull(out: &mut String, ps: &Vec<Gp>)
    ensures
        final(out)@ == old(out)@ + gfull_text(ps@),
{
    if ps.len() > 0 {
        app(out, "< ");
        app_gps(out, ps);
        app(out, "> ");
    }
}

/// Appends the reduced generic-argument list of `ps`.
pub fn app_gred(out: &mut String, ps: &Vec<Gp>)
    ensures
        final(out)@ == old(out)@ + gred_text(ps@),
{
    if ps.len() > 0 {
        app(out, "< ");
        app_gnames(out, ps);
        app(out, "> ");
    }
}

/// Appends the generic-parameter list of a static configuration method.
fn app_gguard(out: &mut String, ps: &Vec<Gp>)
    ensures
        final(out)@ == old(out)@ + gguard_text(ps@),
{
    if ps.len() == 0 {
        app(out, "< 'guard > ");
    } else {
        app(out, "< ");
        app_gps(out, ps);
        app(out, ", 'guard > ");
    }
}

/// Appends the process-wide storage name of a static method.
fn app_static_name(out: &mut String, mock: &String, sub: Option<&Tok>, meth: &Tok)
    ensures
        final(out)@ == old(out)@ + static_name_text(mock@, sub_view(sub), meth.text@),
{
    app_str(out, mock);
    app(out, "_");
    match sub {
        Option::Some(t) => {
            app_text(out, t);
            app(out, "_");
        },
        Option::None => {},
    }
    app_text(out, meth);
    app(out, "_expectation");
}

/// Appends the storage lvalue of `m`.
fn app_lvalue(out: &mut String, m: &MethodSig, c: Klass, mock: &String, sub: Option<&Tok>)
    requires
        c == klass_of(*m),
    ensures
        final(out)@ == old(out)@ + lvalue_text(*m, mock@, sub_view(sub)),
{
    if c.is_static {
        app_static_name(out, mock, sub, &m.name);
        app(out, " ");
    } else {
        match sub {
            Option::Some(t) => {
                app(out, "self . ");
                app_text(out, t);
                app(out, "_expectations . ");
                app_tok(out, &m.name);
            },
            Option::None => {
                app(out, "self . ");
                app_tok(out, &m.name);
            },
        }
    }
}

/// Appends the forwarding method's signature.
#[verifier::rlimit(100)]
#[verifier::spinoff_prover]
fn app_msig(out: &mut String, m: &MethodSig, is_pub: bool)
    ensures
        final(out)@ == old(out)@ + msig_text(*m, (if is_pub {
            "pub "@
        } else {
            Seq::<char>::empty()
        })),
{
    if is_pub {
        app(out, "pub ");
    }
    app_toks(out, &m.quals);
    app(out, "fn ");
    app_tok(out, &m.name);
    app_gfull(out, &m.generics.params);
    app(out, "( ");
    app_toks(out, &m.recv_toks);
    if !(m.recv == Recv::Missing) && m.params.len() > 0 {
        app(out, ", ");
    }
    app_params_sig(out, &m.params);
    app(out, ") ");
    match &m.ret {
        Option::None => {},
        Option::Some(v) => {
            app(out, "-> ");
            app_toks(out, v);
        },
    }
}

/// Appends the forwarding method's body.
#[verifier::rlimit(60)]
fn app_fwd_body(out: &mut String, m: &MethodSig, c: Klass, mock: &String, sub: Option<&Tok>)
    requires
        c == klass_of(*m),
    ensures
        final(out)@ == old(out)@ + fwd_body_text(*m, mock@, sub_view(sub)),
{
    app(out, "{ ");
    app_lvalue(out, m, c, mock, sub);
    if c.is_static {
        app(out, ". lock ( ) . unwrap ( ) ");
    }
    app(out, ". ");
    if c.kind == StoreKind::MutRefReturning {
        app(out, "call_mut ");
    } else {
        app(out, "call ");
    }
    app_turbofish(out, m, c);
    app(out, "( ( ");
    app_pats(out, &m.params);
    app(out, ") ) } ");
}

/// Appends one forwarding method.
pub fn app_mock_meth(out: &mut String, m: &MethodSig, c: Klass, mock: &String, sub: Option<&Tok>, is_pub: bool)
    requires
        c == klass_of(*m),
    ensures
        final(out)@ == old(out)@ + mock_meth_text(*m, mock@, sub_view(sub), (if is_pub {
            "pub "@
        } else {
            Seq::<char>::empty()
        })),
{
    app_msig(out, m, is_pub);
    app_fwd_body(out, m, c, mock, sub);
}

/// Appends one expectation-configuration method.
#[verifier::rlimit(80)]
pub fn app_expect_meth(out: &mut String, m: &MethodSig, c: Klass, mock: &String, sub: Option<&Tok>)
    requires
        c == klass_of(*m),
    ensures
        final(out)@ == old(out)@ + expect_meth_text(*m, mock@, sub_view(sub)),
{
    app(out, "pub fn expect_");
    app_tok(out, &m.name);
    if c.is_static {
        app_gguard(out, &m.generics.params);
        app(out, "( ) -> :: mockall :: ExpectationGuard < 'guard , ");
        app_io(out, m);
        app(out, "> { :: mockall :: ExpectationGuard :: new ( ");
        app_static_name(out, mock, sub, &m.name);
        app(out, " ");
        app(out, ". lock ( ) . unwrap ( ) ) } ");
    } else {
        app_gfull(out, &m.generics.params);
        app(out, "( & mut self ) -> & mut ");
        app(out, ":: mockall :: ");
        app_base(out, c.kind);
        app(out, " ");
        app(out, "< ");
        app_io(out, m);
        app(out, "> { ");
        app_lvalue(out, m, c, mock, sub);
        app(out, ". expect ");
        app_turbofish(out, m, c);
        app(out, "( ) } ");
    }
}

// ---------------------------------------------------------------------------
// Structure texts

/// One instance-method storage field.
pub open spec fn field_text(m: MethodSig) -> Seq<char> {
    m.name.text@ + ": "@ + expect_obj_text(m) + ", "@
}

/// The storage fields of the non-static methods of `ms`, in order.
pub open spec fn fields_text(ms: Seq<MethodSig>) -> Seq<char>
    decreases ms.len(),
{
    if ms.len() == 0 {
        Seq::empty()
    } else {
        fields_text(ms.drop_last()) + (if m_static(ms.last()) {
            Seq::<char>::empty()
        } else {
            field_text(ms.last())
        })
    }
}

/// The process-wide storage declaration of one static method.
pub open spec fn static_line_text(m: MethodSig, mock: Seq<char>) -> Seq<char> {
    "static ref "@ + static_name_text(mock, Option::None, m.name.text@) + sp()
        + ": :: std :: sync :: Mutex < "@ + expect_obj_text(m)
        + "> = :: std :: sync :: Mutex :: new ( :: mockall :: Expectations :: new ( ) ) ; "@
}

/// The process-wide storage declarations of the static methods of `ms`.
pub open spec fn statics_text(ms: Seq<MethodSig>, mock: Seq<char>) -> Seq<char>
    decreases ms.len(),
{
    if ms.len() == 0 {
        Seq::empty()
    } else {
        statics_text(ms.drop_last(), mock) + (if m_static(ms.last()) {
            static_line_text(ms.last(), mock)
        } else {
            Seq::<char>::empty()
        })
    }
}

/// The marker field of the generic parameter at index `k`: reference-shaped
/// for a lifetime parameter, type-shaped for a type parameter.
pub open spec fn ph_one(p: Gp, k: int) -> Seq<char> {
    match p.kind {
        GpKind::Lt => "_t"@ + dec_text(k) + sp() + ": :: std :: marker :: PhantomData < & "@
            + p.name.text@ + sp() + "( ) > , "@,
        GpKind::Ty => "_t"@ + dec_text(k) + sp() + ": :: std :: marker :: PhantomData < "@
            + p.name.text@ + sp() + "> , "@,
        GpKind::Konst => Seq::empty(),
    }
}

/// The marker fields of all generic parameters.
pub open spec fn phs_text(ps: Seq<Gp>) -> Seq<char>
    decreases ps.len(),
{
    if ps.len() == 0 {
        Seq::empty()
    } else {
        phs_text(ps.drop_last()) + ph_one(ps.last(), ps.len() - 1)
    }
}

/// The field of the main structure holding one trait's sub-structure.
pub open spec fn sub_field_text(owner: Seq<char>, t: TraitBlock) -> Seq<char> {
    t.name.text@ + "_expectations : Mock"@ + owner + "_"@ + t.name.text@ + sp()
        + gred_text(t.generics.params@) + ", "@
}

/// The sub-structure fields of all trait blocks.
pub open spec fn subs_text(owner: Seq<char>, ts: Seq<TraitBlock>) -> Seq<char>
    decreases ts.len(),
{
    if ts.len() == 0 {
        Seq::empty()
    } else {
        subs_text(owner, ts.drop_last()) + sub_field_text(owner, ts.last())
    }
}

/// The body of a generated structure: sub-structure fields, method storage
/// fields, marker fields.
pub open spec fn struct_body_text(subs: Seq<char>, ms: Seq<MethodSig>, ps: Seq<Gp>) -> Seq<char> {
    subs + fields_text(ms) + phs_text(ps)
}

/// One generated structure declaration, plus its process-wide storage
/// declarations when any method is static.
pub open spec fn struct_text(vis: Seq<char>, mock: Seq<char>, ps: Seq<Gp>, subs: Seq<char>, ms: Seq<MethodSig>) -> Seq<char> {
    "# [ derive ( Default ) ] "@ + vis + "struct "@ + mock + sp() + gfull_text(ps) + "{ "@
        + struct_body_text(subs, ms, ps) + "} "@ + (if statics_text(ms, mock).len() == 0 {
        Seq::<char>::empty()
    } else {
        ":: mockall :: lazy_static ! { "@ + statics_text(ms, mock) + "} "@
    })
}

// ---------------------------------------------------------------------------
// Errors

/// Takes the first of two possible errors.
pub open spec fn or_opt(a: Option<GenErr>, b: Option<GenErr>) -> Option<GenErr> {
    match a {
        Option::Some(_) => a,
        Option::None => b,
    }
}

/// The error of one generic parameter: const generic parameters and bounds
/// on lifetime parameters are rejected.
pub open spec fn gp_err(p: Gp) -> Option<GenErr> {
    match p.kind {
        GpKind::Lt => if p.bounded {
            Option::Some(GenErr::LifetimeBound)
        } else {
            Option::None
        },
        GpKind::Ty => Option::None,
        GpKind::Konst => Option::Some(GenErr::ConstGenericParam),
    }
}

/// The first generic-parameter error at or after index `i`.
pub open spec fn g_err_at(ps: Seq<Gp>, i: int) -> Option<GenErr>
    decreases ps.len() - i,
{
    if i < 0 || i >= ps.len() {
        Option::None
    } else if gp_err(ps[i]) is Some {
        gp_err(ps[i])
    } else {
        g_err_at(ps, i + 1)
    }
}

/// The first classification error at or after index `i`.
pub open spec fn ms_err_at(ms: Seq<MethodSig>, i: int) -> Option<GenErr>
    decreases ms.len() - i,
{
    if i < 0 || i >= ms.len() {
        Option::None
    } else if m_err(ms[i]) is Some {
        m_err(ms[i])
    } else {
        ms_err_at(ms, i + 1)
    }
}

/// The first classification error among the method items at or after `i`.
pub open spec fn items_merr_at(items: Seq<TraitItem>, i: int) -> Option<GenErr>
    decreases items.len() - i,
{
    if i < 0 || i >= items.len() {
        Option::None
    } else {
        let e = match items[i] {
            TraitItem::Method(ms) => m_err(ms),
            _ => Option::None,
        };
        if e is Some {
            e
        } else {
            items_merr_at(items, i + 1)
        }
    }
}

/// The error raised while generating one trait's sub-structure.
pub open spec fn sub_err(t: TraitBlock) -> Option<GenErr> {
    or_opt(items_merr_at(t.items@, 0), g_err_at(t.generics.params@, 0))
}

/// The first sub-structure error among the trait blocks at or after `i`.
pub open spec fn tsub_err_at(ts: Seq<TraitBlock>, i: int) -> Option<GenErr>
    decreases ts.len() - i,
{
    if i < 0 || i >= ts.len() {
        Option::None
    } else if sub_err(ts[i]) is Some {
        sub_err(ts[i])
    } else {
        tsub_err_at(ts, i + 1)
    }
}

/// The error of one trait item during lowering: generic associated types
/// and associated types without a concrete binding are rejected.
pub open spec fn titem_low_err(it: TraitItem) -> Option<GenErr> {
    match it {
        TraitItem::Method(ms) => m_err(ms),
        TraitItem::Assoc(a) => if a.generics.params@.len() > 0 {
            Option::Some(GenErr::GenericAssociatedType)
        } else {
            match a.binding {
                Option::None => Option::Some(GenErr::MissingConcreteBinding),
                Option::Some(_) => Option::None,
            }
        },
        TraitItem::Konst(_) => Option::None,
    }
}

/// The first lowering error among the trait items at or after `i`.
pub open spec fn titems_err_at(items: Seq<TraitItem>, i: int) -> Option<GenErr>
    decreases items.len() - i,
{
    if i < 0 || i >= items.len() {
        Option::None
    } else if titem_low_err(items[i]) is Some {
        titem_low_err(items[i])
    } else {
        titems_err_at(items, i + 1)
    }
}

/// The first lowering error among the trait blocks at or after `i`.
pub open spec fn tlow_err_at(ts: Seq<TraitBlock>, i: int) -> Option<GenErr>
    decreases ts.len() - i,
{
    if i < 0 || i >= ts.len() {
        Option::None
    } else if titems_err_at(ts[i].items@, 0) is Some {
        titems_err_at(ts[i].items@, 0)
    } else {
        tlow_err_at(ts, i + 1)
    }
}

/// The first error of the whole generation, in generation order, or `None`
/// when generation succeeds.
pub open spec fn gen_err(mk: MockSpec) -> Option<GenErr> {
    or_opt(
        or_opt(ms_err_at(mk.methods@, 0), g_err_at(mk.generics.params@, 0)),
        or_opt(tsub_err_at(mk.traits@, 0), tlow_err_at(mk.traits@, 0)),
    )
}

// ---------------------------------------------------------------------------
// Structure emitters

/// Appends one storage field.
fn app_field(out: &mut String, m: &MethodSig, c: Klass)
    requires
        c == klass_of(*m),
    ensures
        final(out)@ == old(out)@ + field_text(*m),
{
    app_text(out, &m.name);
    app(out, ": ");
    app_expect_obj(out, m, c);
    app(out, ", ");
}

/// Appends one process-wide storage declaration.
fn app_static_line(out: &mut String, m: &MethodSig, c: Klass, mock: &String)
    requires
        c == klass_of(*m),
    ensures
        final(out)@ == old(out)@ + static_line_text(*m, mock@),
{
    app(out, "static ref ");
    app_static_name(out, mock, Option::None, &m.name);
    app(out, " ");
    app(out, ": :: std :: sync :: Mutex < ");
    app_expect_obj(out, m, c);
    app(out, "> = :: std :: sync :: Mutex :: new ( :: mockall :: Expectations :: new ( ) ) ; ");
}

/// Appends the marker fields of `ps`, rejecting const generic parameters
/// and bounds on lifetime parameters.
fn app_phs(out: &mut String, ps: &Vec<Gp>) -> (r: Result<(), GenErr>)
    ensures
        r is Ok <==> g_err_at(ps@, 0) is None,
        r matches Ok(u) ==> final(out)@ == old(out)@ + phs_text(ps@),
        r matches Err(e) ==> g_err_at(ps@, 0) == Option::Some(e),
{
    let n: usize = ps.len();
    let mut k: usize = 0;
    proof {
        assert(out@ =~= old(out)@ + phs_text(ps@.take(0)));
    }
    while k < n
        invariant
            0 <= k <= n,
            n == ps@.len(),
            out@ == old(out)@ + phs_text(ps@.take(k as int)),
            g_err_at(ps@, 0) == g_err_at(ps@, k as int),
        decreases n - k,
    {
        let p = &ps[k];
        match p.kind {
            GpKind::Konst => {
                return Result::Err(GenErr::ConstGenericParam);
            },
            GpKind::Lt => {
                if p.bounded {
                    return Result::Err(GenErr::LifetimeBound);
                }
                app(out, "_t");
                app_dec(out, k);
                app(out, " ");
                app(out, ": :: std :: marker :: PhantomData < & ");
                app_tok(out, &p.name);
                app(out, "( ) > , ");
            },
            GpKind::Ty => {
                app(out, "_t");
                app_dec(out, k);
                app(out, " ");
                app(out, ": :: std :: marker :: PhantomData < ");
                app_tok(out, &p.name);
                app(out, "> , ");
            },
        }
        proof {
            assert(ps@.take(k + 1).drop_last() =~= ps@.take(k as int));
            assert(ps@.take(k + 1).last() == ps@[k as int]);
            assert(out@ =~= old(out)@ + phs_text(ps@.take(k + 1)));
        }
        k = k + 1;
    }
    proof {
        assert(ps@.take(n as int) =~= ps@);
    }
    Result::Ok(())
}

/// Generates the main mock structure: one sub-structure field per trait,
/// one storage field per non-static free method, one process-wide storage
/// declaration per static free method, and one marker field per generic
/// parameter.
#[verifier::rlimit(100)]
#[verifier::spinoff_prover]
pub fn gen_struct_main(out: &mut String, mk: &MockSpec, mock: &String) -> (r: Result<(), GenErr>)
    requires
        mock@ == mock_text(mk.name.text@),
    ensures
        r is Ok <==> or_opt(ms_err_at(mk.methods@, 0), g_err_at(mk.generics.params@, 0)) is None,
        r matches Ok(u) ==> final(out)@ == old(out)@ + struct_text(
            ttext(mk.vis@),
            mock@,
            mk.generics.params@,
            subs_text(mk.name.text@, mk.traits@),
            mk.methods@,
        ),
        r matches Err(e) ==> or_opt(ms_err_at(mk.methods@, 0), g_err_at(mk.generics.params@, 0))
            == Option::Some(e),
{
    let mut body = String::new();
    let mut statics = String::new();
    // sub-structure fields
    let nt: usize = mk.traits.len();
    let mut i: usize = 0;
    proof {
        assert(body@ =~= subs_text(mk.name.text@, mk.traits@.take(0)));
    }
    while i < nt
        invariant
            0 <= i <= nt,
            nt == mk.traits@.len(),
            body@ == subs_text(mk.name.text@, mk.traits@.take(i as int)),
        decreases nt - i,
    {
        let t = &mk.traits[i];
        app_text(&mut body, &t.name);
        app(&mut body, "_expectations : Mock");
        app_text(&mut body, &mk.name);
        app(&mut body, "_");
        app_text(&mut body, &t.name);
        app(&mut body, " ");
        app_gred(&mut body, &t.generics.params);
        app(&mut body, ", ");
        proof {
            assert(mk.traits@.take(i + 1).drop_last() =~= mk.traits@.take(i as int));
            assert(mk.traits@.take(i + 1).last() == mk.traits@[i as int]);
            assert(body@ =~= subs_text(mk.name.text@, mk.traits@.take(i + 1)));
        }
        i = i + 1;
    }
    proof {
        assert(mk.traits@.take(nt as int) =~= mk.traits@);
    }
    // method storage
    let nm: usize = mk.methods.len();
    let mut j: usize = 0;
    proof {
        assert(fields_text(mk.methods@.take(0)) =~= Seq::<char>::empty());
        assert(statics_text(mk.methods@.take(0), mock@) =~= Seq::<char>::empty());
        assert(body@ =~= subs_text(mk.name.text@, mk.traits@) + fields_text(mk.methods@.take(0)));
        assert(statics@ =~= statics_text(mk.methods@.take(0), mock@));
    }
    while j < nm
        invariant
            0 <= j <= nm,
            nm == mk.methods@.len(),
            mock@ == mock_text(mk.name.text@),
            body@ == subs_text(mk.name.text@, mk.traits@) + fields_text(mk.methods@.take(j as int)),
            statics@ == statics_text(mk.methods@.take(j as int), mock@),
            ms_err_at(mk.methods@, 0) == ms_err_at(mk.methods@, j as int),
        decreases nm - j,
    {
        let m = &mk.methods[j];
        let c = match classify(m) {
            Result::Ok(c) => c,
            Result::Err(e) => {
                return Result::Err(e);
            },
        };
        if c.is_static {
            app_static_line(&mut statics, m, c, mock);
        } else {
            app_field(&mut body, m, c);
        }
        proof {
            assert(mk.methods@.take(j + 1).drop_last() =~= mk.methods@.take(j as int));
            assert(mk.methods@.take(j + 1).last() == mk.methods@[j as int]);
            assert(body@ =~= subs_text(mk.name.text@, mk.traits@) + fields_text(
                mk.methods@.take(j + 1)));
            assert(statics@ =~= statics_text(mk.methods@.take(j + 1), mock@));
        }
        j = j + 1;
    }
    proof {
        assert(mk.methods@.take(nm as int) =~= mk.methods@);
    }
    // marker fields
    match app_phs(&mut body, &mk.generics.params) {
        Result::Ok(u) => {},
        Result::Err(e) => {
            return Result::Err(e);
        },
    }
    // assemble
    app(out, "# [ derive ( Default ) ] ");
    app_toks(out, &mk.vis);
    app(out, "struct ");
    app_str(out, mock);
    app(out, " ");
    app_gfull(out, &mk.generics.params);
    app(out, "{ ");
    app_str(out, &body);
    app(out, "} ");
    if !(statics.as_str().unicode_len() == 0) {
        app(out, ":: mockall :: lazy_static ! { ");
        app_str(out, &statics);
        app(out, "} ");
    }
    proof {
        assert(final(out)@ =~= old(out)@ + struct_text(
            ttext(mk.vis@),
            mock@,
            mk.generics.params@,
            subs_text(mk.name.text@, mk.traits@),
            mk.methods@,
        ));
    }
    Result::Ok(())
}

/// The methods among a trait's items, in order.
pub open spec fn trait_methods(items: Seq<TraitItem>) -> Seq<MethodSig>
    decreases items.len(),
{
    if items.len() == 0 {
        Seq::empty()
    } else {
        trait_methods(items.drop_last()) + (match items.last() {
            TraitItem::Method(ms) => seq![ms],
            _ => Seq::<MethodSig>::empty(),
        })
    }
}

/// Generates one trait's nested sub-structure, holding the storage fields
/// of that trait's instance methods.
#[verifier::rlimit(100)]
#[verifier::spinoff_prover]
pub fn gen_struct_sub(out: &mut String, owner: &Tok, t: &TraitBlock, mock: &String) -> (r: Result<(), GenErr>)
    requires
        mock@ == sub_mock_text(owner.text@, t.name.text@),
    ensures
        r is Ok <==> sub_err(*t) is None,
        r matches Ok(u) ==> final(out)@ == old(out)@ + struct_text(
            Seq::<char>::empty(),
            mock@,
            t.generics.params@,
            Seq::<char>::empty(),
            trait_methods(t.items@),
        ),
        r matches Err(e) ==> sub_err(*t) == Option::Some(e),
{
    let mut body = String::new();
    let mut statics = String::new();
    let ni: usize = t.items.len();
    let mut j: usize = 0;
    proof {
        assert(trait_methods(t.items@.take(0)) =~= Seq::<MethodSig>::empty());
        assert(body@ =~= fields_text(trait_methods(t.items@.take(0))));
        assert(statics@ =~= statics_text(trait_methods(t.items@.take(0)), mock@));
    }
    while j < ni
        invariant
            0 <= j <= ni,
            ni == t.items@.len(),
            body@ == fields_text(trait_methods(t.items@.take(j as int))),
            statics@ == statics_text(trait_methods(t.items@.take(j as int)), mock@),
            items_merr_at(t.items@, 0) == items_merr_at(t.items@, j as int),
        decreases ni - j,
    {
        proof {
            assert(t.items@.take(j + 1).drop_last() =~= t.items@.take(j as int));
            assert(t.items@.take(j + 1).last() == t.items@[j as int]);
        }
        match &t.items[j] {
            TraitItem::Method(m) => {
                let c = match classify(m) {
                    Result::Ok(c) => c,
                    Result::Err(e) => {
                        return Result::Err(e);
                    },
                };
                if c.is_static {
                    app_static_line(&mut statics, m, c, mock);
                } else {
                    app_field(&mut body, m, c);
                }
                proof {
                    let tm = trait_methods(t.items@.take(j as int));
                    assert(trait_methods(t.items@.take(j + 1)) =~= tm + seq![*m]);
                    assert((tm + seq![*m]).drop_last() =~= tm);
                    assert((tm + seq![*m]).last() == *m);
                    assert(body@ =~= fields_text(trait_methods(t.items@.take(j + 1))));
                    assert(statics@ =~= statics_text(trait_methods(t.items@.take(j + 1)), mock@));
                }
            },
            _ => {
                proof {
                    assert(trait_methods(t.items@.take(j + 1)) =~= trait_methods(
                        t.items@.take(j as int)));
                }
            },
        }
        j = j + 1;
    }
    proof {
        assert(t.items@.take(ni as int) =~= t.items@);
    }
    match app_phs(&mut body, &t.generics.params) {
        Result::Ok(u) => {},
        Result::Err(e) => {
            return Result::Err(e);
        },
    }
    app(out, "# [ derive ( Default ) ] ");
    app(out, "struct ");
    app_str(out, mock);
    app(out, " ");
    app_gfull(out, &t.generics.params);
    app(out, "{ ");
    app_str(out, &body);
    app(out, "} ");
    if !(statics.as_str().unicode_len() == 0) {
        app(out, ":: mockall :: lazy_static ! { ");
        app_str(out, &statics);
        app(out, "} ");
    }
    proof {
        assert(final(out)@ =~= old(out)@ + struct_text(
            Seq::<char>::empty(),
            mock@,
            t.generics.params@,
            Seq::<char>::empty(),
            trait_methods(t.items@),
        ));
    }
    Result::Ok(())
}

// ---------------------------------------------------------------------------
// Implementation blocks

/// One forwarding/configuration method pair of a free method.
pub open spec fn pair_text(m: MethodSig, mock: Seq<char>) -> Seq<char> {
    mock_meth_text(m, mock, Option::None, "pub "@) + expect_meth_text(m, mock, Option::None)
}

/// The method pairs of all free methods.
pub open spec fn pairs_text(ms: Seq<MethodSig>, mock: Seq<char>) -> Seq<char>
    decreases ms.len(),
{
    if ms.len() == 0 {
        Seq::empty()
    } else {
        pairs_text(ms.drop_last(), mock) + pair_text(ms.last(), mock)
    }
}

/// The inherent implementation block holding the free methods' pairs.
pub open spec fn main_impl_text(mk: MockSpec) -> Seq<char> {
    "impl "@ + gfull_text(mk.generics.params@) + mock_text(mk.name.text@) + sp()
        + gred_text(mk.generics.params@) + "{ "@ + pairs_text(mk.methods@, mock_text(mk.name.text@))
        + "} "@
}

/// A concrete associated-type binding, copied through verbatim.
pub open spec fn assoc_text(a: AssocTy) -> Seq<char> {
    "type "@ + a.name.text@ + sp() + (match a.binding {
        Option::Some(b) => "= "@ + ttext(b@),
        Option::None => Seq::<char>::empty(),
    }) + "; "@
}

/// One trait item's contribution to the trait implementation block.
pub open spec fn titem_fwd_text(it: TraitItem, mock: Seq<char>, tr: Seq<char>) -> Seq<char> {
    match it {
        TraitItem::Method(ms) => mock_meth_text(ms, mock, Option::Some(tr), Seq::<char>::empty()),
        TraitItem::Assoc(a) => assoc_text(a),
        TraitItem::Konst(_) => Seq::empty(),
    }
}

/// The trait implementation block's body.
pub open spec fn tbody_text(items: Seq<TraitItem>, mock: Seq<char>, tr: Seq<char>) -> Seq<char>
    decreases items.len(),
{
    if items.len() == 0 {
        Seq::empty()
    } else {
        tbody_text(items.drop_last(), mock, tr) + titem_fwd_text(items.last(), mock, tr)
    }
}

/// One trait item's contribution to the separate configuration block.
pub open spec fn titem_exp_text(it: TraitItem, mock: Seq<char>, tr: Seq<char>) -> Seq<char> {
    match it {
        TraitItem::Method(ms) => expect_meth_text(ms, mock, Option::Some(tr)),
        _ => Seq::empty(),
    }
}

/// The separate configuration block's body.
pub open spec fn texps_text(items: Seq<TraitItem>, mock: Seq<char>, tr: Seq<char>) -> Seq<char>
    decreases items.len(),
{
    if items.len() == 0 {
        Seq::empty()
    } else {
        texps_text(items.drop_last(), mock, tr) + titem_exp_text(items.last(), mock, tr)
    }
}

/// The generic parameters of the merged implementation header: the owner's
/// own generics when given, else the trait's.
pub open spec fn merged_ps(sg: Option<Generics>, t: TraitBlock) -> Seq<Gp> {
    match sg {
        Option::Some(g) => g.params@,
        Option::None => t.generics.params@,
    }
}

/// One lowered trait: a trait implementation block of forwarding methods
/// and verbatim type bindings, then a second inherent block of
/// configuration methods.
pub open spec fn lower_trait_text(mock: Seq<char>, sg: Option<Generics>, t: TraitBlock) -> Seq<char> {
    ttext(t.quals@) + "impl "@ + gfull_text(merged_ps(sg, t)) + t.name.text@ + sp()
        + gred_text(t.generics.params@) + "for "@ + mock + sp() + gred_text(merged_ps(sg, t))
        + "{ "@ + tbody_text(t.items@, mock, t.name.text@) + "} impl "@
        + gfull_text(merged_ps(sg, t)) + mock + sp() + gred_text(merged_ps(sg, t)) + "{ "@
        + texps_text(t.items@, mock, t.name.text@) + "} "@
}

/// The generics argument of a lowering call.
pub open spec fn sg_view(sg: Option<&Generics>) -> Option<Generics> {
    match sg {
        Option::Some(g) => Option::Some(*g),
        Option::None => Option::None,
    }
}

/// Appends the inherent implementation block of the free methods' pairs.
#[verifier::rlimit(100)]
#[verifier::spinoff_prover]
pub fn app_main_impl(out: &mut String, mk: &MockSpec, mock: &String)
    requires
        mock@ == mock_text(mk.name.text@),
        ms_err_at(mk.methods@, 0) is None,
    ensures
        final(out)@ == old(out)@ + main_impl_text(*mk),
{
    let mut pb = String::new();
    let nm: usize = mk.methods.len();
    let mut i: usize = 0;
    proof {
        assert(pb@ =~= pairs_text(mk.methods@.take(0), mock@));
    }
    while i < nm
        invariant
            0 <= i <= nm,
            nm == mk.methods@.len(),
            mock@ == mock_text(mk.name.text@),
            ms_err_at(mk.methods@, i as int) is None,
            pb@ == pairs_text(mk.methods@.take(i as int), mock@),
        decreases nm - i,
    {
        let m = &mk.methods[i];
        let c = match classify(m) {
            Result::Ok(c) => c,
            Result::Err(e) => {
                proof {
                    assert(false);
                }
                Klass { is_static: false, is_generic: false, kind: StoreKind::Value }
            },
        };
        app_mock_meth(&mut pb, m, c, mock, Option::None, true);
        app_expect_meth(&mut pb, m, c, mock, Option::None);
        proof {
            assert(mk.methods@.take(i + 1).drop_last() =~= mk.methods@.take(i as int));
            assert(mk.methods@.take(i + 1).last() == mk.methods@[i as int]);
            assert(pb@ =~= pairs_text(mk.methods@.take(i + 1), mock@));
        }
        i = i + 1;
    }
    proof {
        assert(mk.methods@.take(nm as int) =~= mk.methods@);
    }
    app(out, "impl ");
    app_gfull(out, &mk.generics.params);
    app_str(out, mock);
    app(out, " ");
    app_gred(out, &mk.generics.params);
    app(out, "{ ");
    app_str(out, &pb);
    app(out, "} ");
}

/// Fills the two bodies of one lowered trait: forwarding methods and
/// verbatim type bindings, and the configuration methods.
#[verifier::rlimit(100)]
#[verifier::spinoff_prover]
fn lower_bodies(tb: &mut String, xb: &mut String, t: &TraitBlock, mock: &String) -> (r: Result<(), GenErr>)
    requires
        items_merr_at(t.items@, 0) is None,
        old(tb)@ == Seq::<char>::empty(),
        old(xb)@ == Seq::<char>::empty(),
    ensures
        r is Ok <==> titems_err_at(t.items@, 0) is None,
        r matches Ok(u) ==> final(tb)@ == tbody_text(t.items@, mock@, t.name.text@)
            && final(xb)@ == texps_text(t.items@, mock@, t.name.text@),
        r matches Err(e) ==> titems_err_at(t.items@, 0) == Option::Some(e),
{
    let ni: usize = t.items.len();
    let mut j: usize = 0;
    proof {
        assert(tb@ =~= tbody_text(t.items@.take(0), mock@, t.name.text@));
        assert(xb@ =~= texps_text(t.items@.take(0), mock@, t.name.text@));
    }
    while j < ni
        invariant
            0 <= j <= ni,
            ni == t.items@.len(),
            items_merr_at(t.items@, j as int) is None,
            titems_err_at(t.items@, 0) == titems_err_at(t.items@, j as int),
            tb@ == tbody_text(t.items@.take(j as int), mock@, t.name.text@),
            xb@ == texps_text(t.items@.take(j as int), mock@, t.name.text@),
        decreases ni - j,
    {
        proof {
            assert(t.items@.take(j + 1).drop_last() =~= t.items@.take(j as int));
            assert(t.items@.take(j + 1).last() == t.items@[j as int]);
        }
        match &t.items[j] {
            TraitItem::Method(m) => {
                let c = match classify(m) {
                    Result::Ok(c) => c,
                    Result::Err(e) => {
                        proof {
                            assert(false);
                        }
                        Klass { is_static: false, is_generic: false, kind: StoreKind::Value }
                    },
                };
                app_mock_meth(tb, m, c, mock, Option::Some(&t.name), false);
                app_expect_meth(xb, m, c, mock, Option::Some(&t.name));
            },
            TraitItem::Assoc(a) => {
                if a.generics.params.len() > 0 {
                    return Result::Err(GenErr::GenericAssociatedType);
                }
                match &a.binding {
                    Option::None => {
                        return Result::Err(GenErr::MissingConcreteBinding);
                    },
                    Option::Some(b) => {
                        app(tb, "type ");
                        app_tok(tb, &a.name);
                        app(tb, "= ");
                        app_toks(tb, b);
                        app(tb, "; ");
                    },
                }
            },
            TraitItem::Konst(k) => {},
        }
        proof {
            assert(tb@ =~= tbody_text(t.items@.take(j + 1), mock@, t.name.text@));
            assert(xb@ =~= texps_text(t.items@.take(j + 1), mock@, t.name.text@));
        }
        j = j + 1;
    }
    proof {
        assert(t.items@.take(ni as int) =~= t.items@);
    }
    Result::Ok(())
}

/// Lowers one trait block: forwarding methods and verbatim associated-type
/// bindings go into the trait's implementation block, configuration
/// methods into a second inherent block.
#[verifier::rlimit(100)]
#[verifier::spinoff_prover]
pub fn app_lower_trait(out: &mut String, t: &TraitBlock, sg: Option<&Generics>, mock: &String) -> (r: Result<(), GenErr>)
    requires
        items_merr_at(t.items@, 0) is None,
    ensures
        r is Ok <==> titems_err_at(t.items@, 0) is None,
        r matches Ok(u) ==> final(out)@ == old(out)@ + lower_trait_text(mock@, sg_view(sg), *t),
        r matches Err(e) ==> titems_err_at(t.items@, 0) == Option::Some(e),
{
    let mut tb = String::new();
    let mut xb = String::new();
    match lower_bodies(&mut tb, &mut xb, t, mock) {
        Result::Ok(u) => {},
        Result::Err(e) => {
            return Result::Err(e);
        },
    }
    let gp: &Vec<Gp> = match sg {
        Option::Some(g) => &g.params,
        Option::None => &t.generics.params,
    };
    proof {
        assert(gp@ == merged_ps(sg_view(sg), *t));
    }
    app_toks(out, &t.quals);
    app(out, "impl ");
    app_gfull(out, gp);
    app_tok(out, &t.name);
    app_gred(out, &t.generics.params);
    app(out, "for ");
    app_str(out, mock);
    app(out, " ");
    app_gred(out, gp);
    app(out, "{ ");
    app_str(out, &tb);
    app(out, "} impl ");
    let ghost h1 = old(out)@ + ttext(t.quals@) + "impl "@ + gfull_text(merged_ps(sg_view(sg), *t))
        + t.name.text@ + sp() + gred_text(t.generics.params@) + "for "@ + mock@ + sp()
        + gred_text(merged_ps(sg_view(sg), *t)) + "{ "@ + tbody_text(t.items@, mock@, t.name.text@)
        + "} impl "@;
    proof {
        assert(out@ == h1);
    }
    app_gfull(out, gp);
    app_str(out, mock);
    app(out, " ");
    app_gred(out, gp);
    app(out, "{ ");
    app_str(out, &xb);
    app(out, "} ");
    proof {
        assert(out@ == h1 + gfull_text(merged_ps(sg_view(sg), *t)) + mock@ + sp() + gred_text(
            merged_ps(sg_view(sg), *t)) + "{ "@ + texps_text(t.items@, mock@, t.name.text@)
            + "} "@);
        assert(out@ == old(out)@ + lower_trait_text(mock@, sg_view(sg), *t));
    }
    Result::Ok(())
}

// ---------------------------------------------------------------------------
// Whole output

/// The sub-structures of all trait blocks.
pub open spec fn sub_structs_text(owner: Seq<char>, ts: Seq<TraitBlock>) -> Seq<char>
    decreases ts.len(),
{
    if ts.len() == 0 {
        Seq::empty()
    } else {
        sub_structs_text(owner, ts.drop_last()) + struct_text(
            Seq::<char>::empty(),
            sub_mock_text(owner, ts.last().name.text@),
            ts.last().generics.params@,
            Seq::<char>::empty(),
            trait_methods(ts.last().items@),
        )
    }
}

/// The lowered implementation blocks of all trait blocks.
pub open spec fn lowers_text(mock: Seq<char>, g: Generics, ts: Seq<TraitBlock>) -> Seq<char>
    decreases ts.len(),
{
    if ts.len() == 0 {
        Seq::empty()
    } else {
        lowers_text(mock, g, ts.drop_last()) + lower_trait_text(mock, Option::Some(g), ts.last())
    }
}

/// The whole generated text of a specification.
pub open spec fn gen_text(mk: MockSpec) -> Seq<char> {
    struct_text(
        ttext(mk.vis@),
        mock_text(mk.name.text@),
        mk.generics.params@,
        subs_text(mk.name.text@, mk.traits@),
        mk.methods@,
    ) + sub_structs_text(mk.name.text@, mk.traits@) + main_impl_text(mk) + lowers_text(
        mock_text(mk.name.text@),
        mk.generics,
        mk.traits@,
    )
}

/// Generates the complete mock source for a parsed specification.
/// Succeeds exactly when no construct of the specification is rejected,
/// and then yields exactly `gen_text`; otherwise reports the first error
/// in generation order and yields nothing.
#[verifier::rlimit(100)]
#[verifier::spinoff_prover]
pub fn generate(mk: &MockSpec) -> (r: Result<String, GenErr>)
    ensures
        r is Ok <==> gen_err(*mk) is None,
        r matches Ok(s) ==> s@ == gen_text(*mk),
        r matches Err(e) ==> gen_err(*mk) == Option::Some(e),
{
    let mut mock = String::new();
    app(&mut mock, "Mock");
    app_text(&mut mock, &mk.name);
    let mut out = String::new();
    match gen_struct_main(&mut out, mk, &mock) {
        Result::Ok(u) => {},
        Result::Err(e) => {
            return Result::Err(e);
        },
    }
    let ghost part1 = struct_text(
        ttext(mk.vis@),
        mock@,
        mk.generics.params@,
        subs_text(mk.name.text@, mk.traits@),
        mk.methods@,
    );
    let nt: usize = mk.traits.len();
    let mut i: usize = 0;
    proof {
        assert(out@ =~= part1 + sub_structs_text(mk.name.text@, mk.traits@.take(0)));
    }
    while i < nt
        invariant
            0 <= i <= nt,
            nt == mk.traits@.len(),
            mock@ == mock_text(mk.name.text@),
            part1 == struct_text(
                ttext(mk.vis@),
                mock@,
                mk.generics.params@,
                subs_text(mk.name.text@, mk.traits@),
                mk.methods@,
            ),
            ms_err_at(mk.methods@, 0) is None,
            g_err_at(mk.generics.params@, 0) is None,
            tsub_err_at(mk.traits@, 0) == tsub_err_at(mk.traits@, i as int),
            out@ == part1 + sub_structs_text(mk.name.text@, mk.traits@.take(i as int)),
        decreases nt - i,
    {
        let t = &mk.traits[i];
        let mut smock = String::new();
        app(&mut smock, "Mock");
        app_text(&mut smock, &mk.name);
        app(&mut smock, "_");
        app_text(&mut smock, &t.name);
        match gen_struct_sub(&mut out, &mk.name, t, &smock) {
            Result::Ok(u) => {},
            Result::Err(e) => {
                return Result::Err(e);
            },
        }
        proof {
            assert(mk.traits@.take(i + 1).drop_last() =~= mk.traits@.take(i as int));
            assert(mk.traits@.take(i + 1).last() == mk.traits@[i as int]);
            assert(out@ =~= part1 + sub_structs_text(mk.name.text@, mk.traits@.take(i + 1)));
        }
        i = i + 1;
    }
    proof {
        assert(mk.traits@.take(nt as int) =~= mk.traits@);
    }
    app_main_impl(&mut out, mk, &mock);
    let ghost part3 = part1 + sub_structs_text(mk.name.text@, mk.traits@) + main_impl_text(*mk);
    proof {
        assert(out@ =~= part3 + lowers_text(mock@, mk.generics, mk.traits@.take(0)));
    }
    let mut k: usize = 0;
    while k < nt
        invariant
            0 <= k <= nt,
            nt == mk.traits@.len(),
            mock@ == mock_text(mk.name.text@),
            part3 == struct_text(
                ttext(mk.vis@),
                mock@,
                mk.generics.params@,
                subs_text(mk.name.text@, mk.traits@),
                mk.methods@,
            ) + sub_structs_text(mk.name.text@, mk.traits@) + main_impl_text(*mk),
            ms_err_at(mk.methods@, 0) is None,
            g_err_at(mk.generics.params@, 0) is None,
            tsub_err_at(mk.traits@, 0) is None,
            tlow_err_at(mk.traits@, 0) == tlow_err_at(mk.traits@, k as int),
            out@ == part3 + lowers_text(mock@, mk.generics, mk.traits@.take(k as int)),
        decreases nt - k,
    {
        let t = &mk.traits[k];
        proof {
            lemma_tsub_none(mk.traits@, k as int);
            assert(sub_err(mk.traits@[k as int]) is None);
        }
        match app_lower_trait(&mut out, t, Option::Some(&mk.generics), &mock) {
            Result::Ok(u) => {},
            Result::Err(e) => {
                return Result::Err(e);
            },
        }
        proof {
            assert(mk.traits@.take(k + 1).drop_last() =~= mk.traits@.take(k as int));
            assert(mk.traits@.take(k + 1).last() == mk.traits@[k as int]);
            assert(out@ =~= part3 + lowers_text(mock@, mk.generics, mk.traits@.take(k + 1)));
        }
        k = k + 1;
    }
    proof {
        assert(mk.traits@.take(nt as int) =~= mk.traits@);
        assert(out@ =~= gen_text(*mk));
    }
    Result::Ok(out)
}

/// When no sub-structure error exists, each trait block is error-free.
proof fn lemma_tsub_none(ts: Seq<TraitBlock>, k: int)
    requires
        tsub_err_at(ts, 0) is None,
        0 <= k < ts.len(),
    ensures
        sub_err(ts[k]) is None,
{
    lemma_tsub_none_from(ts, 0, k);
}

proof fn lemma_tsub_none_from(ts: Seq<TraitBlock>, i: int, k: int)
    requires
        tsub_err_at(ts, i) is None,
        0 <= i <= k < ts.len(),
    ensures
        sub_err(ts[k]) is None,
    decreases k - i,
{
    if i < k {
        lemma_tsub_none_from(ts, i + 1, k);
    }
}

} // verus!
