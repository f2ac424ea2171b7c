//! The intermediate representation of a mock specification.
//!
//! Source text is tokenized into [`Tok`] values; the parser groups the
//! tokens into a [`MockSpec`]: a visibility, a name, generic parameters,
//! free method signatures, and trait blocks.  Every piece of user-written
//! text (types, patterns, qualifiers) is kept as the token run that was
//! consumed, so the generator can splice it back verbatim.

use vstd::prelude::*;
use vstd::string::StrSliceExecFns;

verus! {

/// The kind of one lexical token.
#[derive(Clone, Copy, PartialEq, Eq, Structural, Debug)]
pub enum TokKind {
    /// An identifier or keyword (`fn`, `foo`, `u32`).
    Ident,
    /// A lifetime (`'a`, `'static`).
    Life,
    /// A numeric literal (`0`, `16u32`).
    Num,
    /// Punctuation; `::` and `->` are single tokens, all else one character.
    Punc,
}

/// One lexical token: its kind and its exact text.
pub struct Tok {
    pub kind: TokKind,
    pub text: String,
}

/// The mathematical value of a token: its kind and its character sequence.
pub ghost struct GTok {
    pub kind: TokKind,
    pub text: Seq<char>,
}

impl View for Tok {
    type V = GTok;

    open spec fn view(&self) -> GTok {
        GTok { kind: self.kind, text: self.text@ }
    }
}

/// The token-value sequence of a token run.
pub open spec fn tv(s: Seq<Tok>) -> Seq<GTok> {
    s.map_values(|t: Tok| t@)
}

/// The token value of an identifier with the given text.
pub open spec fn g_id(s: Seq<char>) -> GTok {
    GTok { kind: TokKind::Ident, text: s }
}

/// The token value of a punctuation token with the given text.
pub open spec fn g_pn(s: Seq<char>) -> GTok {
    GTok { kind: TokKind::Punc, text: s }
}

/// The kind of one generic parameter.
#[derive(Clone, Copy, PartialEq, Eq, Structural, Debug)]
pub enum GpKind {
    /// A lifetime parameter.
    Lt,
    /// A type parameter.
    Ty,
    /// A const generic parameter (rejected at generation).
    Konst,
}

/// One generic parameter: its kind, its name token, whether it carries
/// bounds, and the full token run it was written as.
pub struct Gp {
    pub kind: GpKind,
    pub name: Tok,
    pub bounded: bool,
    pub toks: Vec<Tok>,
}

/// A generic-parameter list; empty `params` means none were declared.
pub struct Generics {
    pub params: Vec<Gp>,
}

/// The receiver mode of a method signature.
#[derive(Clone, Copy, PartialEq, Eq, Structural, Debug)]
pub enum Recv {
    /// No receiver: a static method.
    Missing,
    /// `self`.
    ByValue,
    /// `&self`.
    ByRef,
    /// `&mut self`.
    ByRefMut,
}

/// One non-receiver parameter: its pattern tokens and its type tokens.
pub struct Param {
    pub pat: Vec<Tok>,
    pub ty: Vec<Tok>,
}

/// One method signature.
pub struct MethodSig {
    /// Qualifier tokens before `fn`, passed through uninterpreted.
    pub quals: Vec<Tok>,
    /// The method name.
    pub name: Tok,
    /// The method's own generic parameters.
    pub generics: Generics,
    /// The receiver mode.
    pub recv: Recv,
    /// The receiver tokens as written (empty when `recv` is `Missing`).
    pub recv_toks: Vec<Tok>,
    /// The non-receiver parameters, in declaration order.
    pub params: Vec<Param>,
    /// The return type tokens after `->`, or `None` for unit.
    pub ret: Option<Vec<Tok>>,
}

/// A concrete associated-type binding, or a bare associated type.
pub struct AssocTy {
    pub name: Tok,
    /// Generic parameters on the associated type (rejected at generation).
    pub generics: Generics,
    /// The bound concrete type, or `None` when no binding was written.
    pub binding: Option<Vec<Tok>>,
}

/// One item of a trait block.
pub enum TraitItem {
    Method(MethodSig),
    Assoc(AssocTy),
    /// An associated constant; skipped by generation.
    Konst(Vec<Tok>),
}

/// One trait block of the specification.
pub struct TraitBlock {
    /// Qualifier tokens before `trait` (e.g. unsafety), passed through.
    pub quals: Vec<Tok>,
    pub name: Tok,
    pub generics: Generics,
    pub items: Vec<TraitItem>,
}

/// A parsed mock specification.
pub struct MockSpec {
    /// Visibility tokens, possibly empty.
    pub vis: Vec<Tok>,
    /// The name of the type being mocked.
    pub name: Tok,
    /// The type's generic parameters.
    pub generics: Generics,
    /// Free method signatures.
    pub methods: Vec<MethodSig>,
    /// Trait blocks.
    pub traits: Vec<TraitBlock>,
}

/// The storage shape of one method, a pure function of its return type.
#[derive(Clone, Copy, PartialEq, Eq, Structural, Debug)]
pub enum StoreKind {
    /// Returns a plain value (or nothing).
    Value,
    /// Returns a shared reference.
    RefReturning,
    /// Returns a mutable reference.
    MutRefReturning,
}

/// The classification of one method signature: derived, never persisted.
///
/// The remaining derived quantities are pure functions of the signature
/// and are stated as spec functions where generation uses them: the input
/// tuple type (`gen::tuple_text`), the output type (`gen::output_text`),
/// the call selector (`gen::sel_text`), and the expectation-container
/// type (`gen::expect_obj_text`, type-erased when `is_generic`).
#[derive(Clone, Copy, PartialEq, Eq, Structural, Debug)]
pub struct Klass {
    /// True iff the signature has no receiver.
    pub is_static: bool,
    /// True iff the method declares its own generic parameters.
    pub is_generic: bool,
    /// The storage shape derived from the return type.
    pub kind: StoreKind,
}

/// Why generation halted; every failure is fatal and yields no output.
#[derive(Clone, Copy, PartialEq, Eq, Structural, Debug)]
pub enum GenErr {
    /// Malformed specification text.
    Parse,
    /// A non-method item in the free-method block.
    UnsupportedItem,
    /// An explicit non-`'static` lifetime on a returned reference.
    NonStaticLifetime,
    /// A generic associated type.
    GenericAssociatedType,
    /// An associated type with no concrete binding.
    MissingConcreteBinding,
    /// A const generic parameter.
    ConstGenericParam,
    /// A bound on a declared lifetime parameter.
    LifetimeBound,
}

/// Copies one token; the copy equals the original.
pub fn dup_tok(t: &Tok) -> (r: Tok)
    ensures
        r == *t,
{
    let r = Tok { kind: t.kind, text: t.text.clone() };
    r
}

/// Compares two string slices character by character.
pub fn str_eq(a: &str, b: &str) -> (r: bool)
    ensures
        r == (a@ == b@),
{
    let na: usize = a.unicode_len();
    let nb: usize = b.unicode_len();
    if na != nb {
        return false;
    }
    let mut i: usize = 0;
    while i < na
        invariant
            0 <= i <= na,
            na == a@.len(),
            na == b@.len(),
            forall|k: int| 0 <= k < i ==> a@[k] == b@[k],
        decreases na - i,
    {
        if a.get_char(i) != b.get_char(i) {
            return false;
        }
        i = i + 1;
    }
    proof {
        assert(a@ =~= b@);
    }
    true
}

/// Whether `t` is an identifier token with the given text.
pub open spec fn is_id(t: Tok, s: Seq<char>) -> bool {
    t.kind == TokKind::Ident && t.text@ == s
}

/// Whether `t` is a punctuation token with the given text.
pub open spec fn is_p(t: Tok, s: Seq<char>) -> bool {
    t.kind == TokKind::Punc && t.text@ == s
}

/// Tests whether `t` is the identifier `s`.
pub fn id_is(t: &Tok, s: &str) -> (r: bool)
    ensures
        r == is_id(*t, s@),
{
    t.kind == TokKind::Ident && str_eq(t.text.as_str(), s)
}

/// Tests whether `t` is the punctuation `s`.
pub fn p_is(t: &Tok, s: &str) -> (r: bool)
    ensures
        r == is_p(*t, s@),
{
    t.kind == TokKind::Punc && str_eq(t.text.as_str(), s)
}

} // verus!
