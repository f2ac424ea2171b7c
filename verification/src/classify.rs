//! Signature classification.
//!
//! Classification is a pure, per-method function of the signature's
//! syntactic shape: the receiver decides `is_static`, the method's own
//! generic-parameter list decides `is_generic`, and the outermost shape of
//! the return type decides the storage kind.  A returned reference whose
//! explicit lifetime is not `'static` is rejected before any output is
//! produced.

use vstd::prelude::*;
use crate::ir::{GenErr, Klass, MethodSig, Recv, StoreKind, Tok, TokKind, is_id, is_p, id_is, p_is, str_eq};

verus! {

/// Whether a return-type token run is an outer reference.
pub open spec fn ret_is_ref(t: Seq<Tok>) -> bool {
    t.len() >= 1 && is_p(t[0], "&"@)
}

/// Whether an outer reference carries an explicit lifetime.
pub open spec fn ret_has_lt(t: Seq<Tok>) -> bool {
    ret_is_ref(t) && t.len() >= 2 && t[1].kind == TokKind::Life
}

/// The position where `mut` would stand in an outer reference.
pub open spec fn mut_idx(t: Seq<Tok>) -> int {
    if ret_has_lt(t) {
        2
    } else {
        1
    }
}

/// Whether an outer reference is mutable.
pub open spec fn ret_is_mut(t: Seq<Tok>) -> bool {
    ret_is_ref(t) && mut_idx(t) < t.len() && is_id(t[mut_idx(t)], "mut"@)
}

/// How many leading tokens the outer reference occupies.
pub open spec fn strip_len(t: Seq<Tok>) -> int {
    1 + (if ret_has_lt(t) {
        1int
    } else {
        0int
    }) + (if ret_is_mut(t) {
        1int
    } else {
        0int
    })
}

/// The referent of an outer reference: the return type with one reference
/// level stripped.
pub open spec fn ret_inner(t: Seq<Tok>) -> Seq<Tok> {
    t.subrange(strip_len(t), t.len() as int)
}

/// The storage kind of a return type: mutable references need
/// `MutRefReturning`, shared references `RefReturning`, everything else
/// (including no return type) `Value`.
pub open spec fn shape_of(ret: Option<Vec<Tok>>) -> StoreKind {
    match ret {
        Option::None => StoreKind::Value,
        Option::Some(v) => if ret_is_mut(v@) {
            StoreKind::MutRefReturning
        } else if ret_is_ref(v@) {
            StoreKind::RefReturning
        } else {
            StoreKind::Value
        },
    }
}

/// Whether the return type's lifetime is acceptable: a returned reference
/// must have an elided lifetime or exactly `'static`.
pub open spec fn lt_ok(ret: Option<Vec<Tok>>) -> bool {
    match ret {
        Option::None => true,
        Option::Some(v) => !(ret_has_lt(v@) && v@[1].text@ != "'static"@),
    }
}

/// Whether a signature is static: it has no receiver.
pub open spec fn m_static(m: MethodSig) -> bool {
    m.recv == Recv::Missing
}

/// Whether a signature is generic: it declares its own generic parameters.
pub open spec fn m_generic(m: MethodSig) -> bool {
    m.generics.params.len() > 0
}

/// The classification of a legal signature.
pub open spec fn klass_of(m: MethodSig) -> Klass {
    Klass { is_static: m_static(m), is_generic: m_generic(m), kind: shape_of(m.ret) }
}

/// The lifetime error of one signature, if any.
pub open spec fn m_err(m: MethodSig) -> Option<GenErr> {
    if lt_ok(m.ret) {
        Option::None
    } else {
        Option::Some(GenErr::NonStaticLifetime)
    }
}

/// Classifies one method signature.  Succeeds exactly when the return
/// type's lifetime is acceptable, and then yields the receiver, genericity
/// and storage-kind classification of the signature.
pub fn classify(m: &MethodSig) -> (r: Result<Klass, GenErr>)
    ensures
        r is Ok <==> lt_ok(m.ret),
        r matches Ok(c) ==> c == klass_of(*m),
        r matches Err(e) ==> e == GenErr::NonStaticLifetime,
{
    let kind: StoreKind;
    match &m.ret {
        Option::None => {
            kind = StoreKind::Value;
        },
        Option::Some(v) => {
            let is_ref = v.len() >= 1 && p_is(&v[0], "&");
            let has_lt = is_ref && v.len() >= 2 && v[1].kind == TokKind::Life;
            if has_lt && !str_eq(v[1].text.as_str(), "'static") {
                return Result::Err(GenErr::NonStaticLifetime);
            }
            let mi: usize = if has_lt {
                2
            } else {
                1
            };
            let is_mut = is_ref && mi < v.len() && id_is(&v[mi], "mut");
            kind = if is_mut {
                StoreKind::MutRefReturning
            } else if is_ref {
                StoreKind::RefReturning
            } else {
                StoreKind::Value
            };
        },
    }
    Result::Ok(Klass {
        is_static: m.recv == Recv::Missing,
        is_generic: m.generics.params.len() > 0,
        kind,
    })
}

} // verus!
