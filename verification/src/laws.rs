//! Stated and proved properties of classification and generation.

use vstd::prelude::*;
use crate::classify::{klass_of, m_static, ret_has_lt, ret_inner, ret_is_mut, shape_of};
use crate::emit::{pats_text, sp, ttext};
use crate::gen::{expect_meth_text, fwd_body_text, gen_text, io_text, lower_trait_text, lowers_text, output_text, sel_text, static_name_text, struct_text, sub_mock_text, sub_structs_text, trait_methods, tuple_text, turbofish_text};
use crate::ir::{Generics, MethodSig, MockSpec, Recv, StoreKind, Tok, TraitBlock};

verus! {

/// A method signature with no receiver classifies as static, and its
/// forwarding body acquires the process-wide lock around the call: the
/// storage lvalue is the name-qualified static container, and the call
/// selector is invoked behind `lock().unwrap()`.
pub proof fn lemma_static_method_locked(m: MethodSig, mock: Seq<char>, sub: Option<Seq<char>>)
    requires
        m.recv == Recv::Missing,
    ensures
        klass_of(m).is_static,
        fwd_body_text(m, mock, sub) == "{ "@ + (static_name_text(mock, sub, m.name.text@) + sp())
            + ". lock ( ) . unwrap ( ) "@ + ". "@ + sel_text(shape_of(m.ret)) + turbofish_text(m)
            + "( ( "@ + pats_text(m.params@) + ") ) } "@,
{
}

/// A method signature whose receiver is present classifies as non-static,
/// and its forwarding body reads the instance's own storage with no lock.
pub proof fn lemma_instance_method_unlocked(m: MethodSig, mock: Seq<char>)
    requires
        m.recv != Recv::Missing,
    ensures
        !klass_of(m).is_static,
        fwd_body_text(m, mock, Option::None) == "{ "@ + ("self . "@ + m.name.text@ + sp()) + ". "@
            + sel_text(shape_of(m.ret)) + turbofish_text(m) + "( ( "@ + pats_text(m.params@)
            + ") ) } "@,
{
}

/// A return type `& 'static T` classifies as reference-returning: the
/// storage kind is `RefReturning`, the call selector is `call`, and the
/// output type is `T`, the return type with the reference stripped.
pub proof fn lemma_static_ref_return(m: MethodSig, v: Vec<Tok>)
    requires
        m.ret == Option::Some(v),
        ret_has_lt(v@),
        v@[1].text@ == "'static"@,
        !ret_is_mut(v@),
    ensures
        shape_of(m.ret) == StoreKind::RefReturning,
        klass_of(m).kind == StoreKind::RefReturning,
        sel_text(shape_of(m.ret)) == "call "@,
        output_text(m.ret) == ttext(v@.skip(2)),
{
    assert(ret_inner(v@) =~= v@.skip(2));
}

/// A return type `& 'static mut T` classifies as mutable-reference-
/// returning: the storage kind is `MutRefReturning`, the call selector is
/// `call_mut`, and the output type is `T`.
pub proof fn lemma_static_ref_mut_return(m: MethodSig, v: Vec<Tok>)
    requires
        m.ret == Option::Some(v),
        ret_has_lt(v@),
        v@[1].text@ == "'static"@,
        ret_is_mut(v@),
    ensures
        shape_of(m.ret) == StoreKind::MutRefReturning,
        klass_of(m).kind == StoreKind::MutRefReturning,
        sel_text(shape_of(m.ret)) == "call_mut "@,
        output_text(m.ret) == ttext(v@.skip(3)),
{
    assert(ret_inner(v@) =~= v@.skip(3));
}

/// A generic method's forwarding body and configuration method both carry
/// explicit type arguments, and those arguments are exactly the input
/// tuple type and the output type.
pub proof fn lemma_generic_explicit_type_args(m: MethodSig, mock: Seq<char>, sub: Option<Seq<char>>)
    requires
        m.generics.params@.len() > 0,
    ensures
        klass_of(m).is_generic,
        turbofish_text(m) == ":: < "@ + (tuple_text(m.params@) + ", "@ + output_text(m.ret))
            + "> "@,
        fwd_body_text(m, mock, sub) == "{ "@ + crate::gen::lvalue_text(m, mock, sub) + (
        if m_static(m) {
            ". lock ( ) . unwrap ( ) "@
        } else {
            Seq::<char>::empty()
        }) + ". "@ + sel_text(shape_of(m.ret)) + turbofish_text(m) + "( ( "@ + pats_text(
            m.params@) + ") ) } "@,
        !m_static(m) ==> expect_meth_text(m, mock, sub) == "pub fn expect_"@ + m.name.text@ + sp()
            + crate::gen::gfull_text(m.generics.params@) + "( & mut self ) -> & mut "@
            + crate::gen::expectation_text(shape_of(m.ret)) + "< "@ + io_text(m) + "> { "@
            + crate::gen::lvalue_text(m, mock, sub) + ". expect "@ + turbofish_text(m) + "( ) } "@,
        m_static(m) ==> expect_meth_text(m, mock, sub) == "pub fn expect_"@ + m.name.text@ + sp()
            + crate::gen::gguard_text(m.generics.params@)
            + "( ) -> :: mockall :: ExpectationGuard < 'guard , "@ + io_text(m)
            + "> { :: mockall :: ExpectationGuard :: new ( "@ + static_name_text(
            mock,
            sub,
            m.name.text@,
        ) + sp() + ". lock ( ) . unwrap ( ) ) } "@,
{
}

/// Appending one trait block appends exactly one nested sub-structure and
/// exactly one pair of implementation blocks (forwarding, then
/// configuration), and leaves the other traits' output untouched: each
/// trait's contribution is a function of that trait alone.
pub proof fn lemma_one_block_per_trait(owner: Seq<char>, mock: Seq<char>, g: Generics, ts: Seq<TraitBlock>, k: int)
    requires
        0 <= k < ts.len(),
    ensures
        sub_structs_text(owner, ts.take(k + 1)) == sub_structs_text(owner, ts.take(k))
            + struct_text(
            Seq::<char>::empty(),
            sub_mock_text(owner, ts[k].name.text@),
            ts[k].generics.params@,
            Seq::<char>::empty(),
            trait_methods(ts[k].items@),
        ),
        lowers_text(mock, g, ts.take(k + 1)) == lowers_text(mock, g, ts.take(k))
            + lower_trait_text(mock, Option::Some(g), ts[k]),
{
    assert(ts.take(k + 1).drop_last() =~= ts.take(k));
    assert(ts.take(k + 1).last() == ts[k]);
}

/// The name of the field that holds one trait's sub-structure.
pub open spec fn sub_field_name(t: TraitBlock) -> Seq<char> {
    t.name.text@ + "_expectations"@
}

/// Appending one common suffix to two different sequences keeps them
/// different.
proof fn lemma_suffix_injective(a: Seq<char>, b: Seq<char>, s: Seq<char>)
    requires
        a + s == b + s,
    ensures
        a == b,
{
    assert((a + s).len() == a.len() + s.len());
    assert((b + s).len() == b.len() + s.len());
    assert(a.len() == b.len());
    assert forall|k: int| 0 <= k < a.len() implies a[k] == b[k] by {
        assert((a + s)[k] == a[k]);
        assert((b + s)[k] == b[k]);
    }
    assert(a =~= b);
}

/// Trait blocks with distinct names contribute distinct field names to the
/// owning structure, so nested sub-structures never collide.
pub proof fn lemma_sub_fields_distinct(mk: MockSpec, i: int, j: int)
    requires
        0 <= i < mk.traits@.len(),
        0 <= j < mk.traits@.len(),
        mk.traits@[i].name.text@ != mk.traits@[j].name.text@,
    ensures
        sub_field_name(mk.traits@[i]) != sub_field_name(mk.traits@[j]),
{
    if sub_field_name(mk.traits@[i]) == sub_field_name(mk.traits@[j]) {
        lemma_suffix_injective(
            mk.traits@[i].name.text@,
            mk.traits@[j].name.text@,
            "_expectations"@,
        );
    }
}

/// Whether a result value satisfies `generate`'s contract for `mk`.
pub open spec fn meets_generate(mk: MockSpec, r: Result<Seq<char>, crate::ir::GenErr>) -> bool {
    &&& (r is Ok <==> crate::gen::gen_err(mk) is None)
    &&& (match r {
        Result::Ok(s) => s == gen_text(mk),
        Result::Err(e) => crate::gen::gen_err(mk) == Option::Some(e),
    })
}

/// Generation is deterministic: its contract admits exactly one result
/// per specification, so re-running generation on an unchanged
/// specification yields a byte-identical outcome.
pub proof fn lemma_generation_idempotent(mk: MockSpec, r1: Result<Seq<char>, crate::ir::GenErr>, r2: Result<Seq<char>, crate::ir::GenErr>)
    requires
        meets_generate(mk, r1),
        meets_generate(mk, r2),
    ensures
        r1 == r2,
{
}

} // verus!
