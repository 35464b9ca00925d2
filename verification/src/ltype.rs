//! Resolution of surface type annotations into machine types.
//!
//! A [`TypeExpr`] resolves to an [`LType`]: one of ten scalar kinds, void,
//! an array with a compile-time element count, a placeholder aggregate
//! kind, or a function signature. Sizing and scalar-kind mapping are pure
//! queries over a resolved type; every failure is an explicit
//! [`TypeError`] value, never an abort.

use vstd::prelude::*;

use crate::ast::{DefFuncExpr, Expr, ModifierSet, TypeExpr};
use crate::parser::{digits_val, is_digit, is_digits, lemma_digits_val_grows,
    lemma_digits_val_nonneg, lemma_digits_val_step};

verus! {

/// The native scalar kind a code generator loads a value as. Unsigned
/// integers map to same-width signed-register kinds; arrays are handled
/// as address-width (64-bit) scalars.
#[derive(Debug, Clone, Copy, PartialEq, Eq)]
pub enum ScalarType {
    I8,
    I16,
    I32,
    I64,
    F32,
    F64,
}

/// A resolution or sizing failure, reported as a value so a hosting
/// compiler can turn it into a diagnostic and continue.
#[derive(Debug, Clone, Copy, PartialEq, Eq)]
pub enum TypeError {
    /// A type identifier that names no primitive type.
    UnknownTypeName,
    /// An array size slot holding anything but an integer literal.
    NonLiteralArraySize,
    /// An array element count that does not fit the machine word.
    ArraySizeTooLarge,
    /// A byte size that exceeds the machine word.
    SizeOverflow,
    /// A size query against a kind with no defined flat size.
    NoDefinedSize,
    /// A scalar-kind query against a kind with no register representation.
    NoScalarKind,
    /// A parameter or return annotation in a function signature that is
    /// neither a primitive type nor void.
    UnsupportedSignatureType,
}

/// A resolved function signature.
#[derive(Debug, PartialEq)]
pub struct LFunctionType {
    pub name: Vec<u8>,
    pub params: Vec<(Vec<u8>, LType)>,
    pub return_type: Box<LType>,
    pub modifiers: ModifierSet,
}

/// A resolved array type: element type and fixed element count.
#[derive(Debug, PartialEq)]
pub struct LArrayType {
    pub ltype: Box<LType>,
    pub size: usize,
}

/// A resolved machine type.
#[derive(Debug, PartialEq)]
pub enum LType {
    I8,
    I16,
    I32,
    I64,
    U8,
    U16,
    U32,
    U64,
    F32,
    F64,
    Void,
    LArray(LArrayType),
    /// Placeholder aggregate kind: any size or lowering query on it fails
    /// explicitly.
    LStructure,
    LFunction(LFunctionType),
}

/// The primitive kind a type name denotes, if any (`i8` ... `f64`).
pub open spec fn scalar_name(s: Seq<u8>) -> Option<LType> {
    if s == seq![105u8, 56u8] {
        Some(LType::I8)
    } else if s == seq![105u8, 49u8, 54u8] {
        Some(LType::I16)
    } else if s == seq![105u8, 51u8, 50u8] {
        Some(LType::I32)
    } else if s == seq![105u8, 54u8, 52u8] {
        Some(LType::I64)
    } else if s == seq![117u8, 56u8] {
        Some(LType::U8)
    } else if s == seq![117u8, 49u8, 54u8] {
        Some(LType::U16)
    } else if s == seq![117u8, 51u8, 50u8] {
        Some(LType::U32)
    } else if s == seq![117u8, 54u8, 52u8] {
        Some(LType::U64)
    } else if s == seq![102u8, 51u8, 50u8] {
        Some(LType::F32)
    } else if s == seq![102u8, 54u8, 52u8] {
        Some(LType::F64)
    } else {
        None
    }
}

/// What a basic (non-array) type expression resolves to.
pub open spec fn spec_basic(t: TypeExpr) -> Option<LType> {
    match t {
        TypeExpr::Ident(n) => scalar_name(n@),
        TypeExpr::Void => Some(LType::Void),
        TypeExpr::Array(_, _) => None,
    }
}

/// The error a non-basic annotation yields in a function signature.
pub open spec fn basic_fail_err(t: TypeExpr) -> TypeError {
    match t {
        TypeExpr::Array(_, _) => TypeError::UnsupportedSignatureType,
        _ => TypeError::UnknownTypeName,
    }
}

/// What the size slot of an array shape yields: the literal count, or the
/// error for a non-literal or oversized size.
pub open spec fn size_result(sz: Expr) -> Result<int, TypeError> {
    match sz {
        Expr::Literal(txt) => if txt@.len() > 0 && is_digits(txt@) {
            if digits_val(txt@) <= usize::MAX {
                Ok(digits_val(txt@))
            } else {
                Err(TypeError::ArraySizeTooLarge)
            }
        } else {
            Err(TypeError::NonLiteralArraySize)
        },
        _ => Err(TypeError::NonLiteralArraySize),
    }
}

/// The error resolving `t` reports, if any. The element of an array shape
/// is resolved before its size slot is examined.
pub open spec fn resolve_err(t: TypeExpr) -> Option<TypeError>
    decreases t,
{
    match t {
        TypeExpr::Array(el, sz) => match resolve_err(*el) {
            Some(e) => Some(e),
            None => match size_result(*sz) {
                Ok(_) => None,
                Err(e) => Some(e),
            },
        },
        _ => match spec_basic(t) {
            Some(_) => None,
            None => Some(TypeError::UnknownTypeName),
        },
    }
}

/// The resolution relation: `r` is the outcome of resolving `t`.
pub open spec fn resolves_to(t: TypeExpr, r: Result<LType, TypeError>) -> bool
    decreases t,
{
    match r {
        Err(e) => resolve_err(t) == Some(e),
        Ok(l) => resolve_err(t) is None && match t {
            TypeExpr::Array(el, sz) => l matches LType::LArray(a) && resolves_to(
                *el,
                Ok(*a.ltype),
            ) && size_result(*sz) == Ok::<int, TypeError>(a.size as int),
            _ => Some(l) == spec_basic(t),
        },
    }
}

/// The byte size of a resolved type, where one is defined: scalars by
/// width, void zero, arrays recursively element size times count.
pub open spec fn spec_size(t: LType) -> Option<int>
    decreases t,
{
    match t {
        LType::I8 | LType::U8 => Some(1),
        LType::I16 | LType::U16 => Some(2),
        LType::I32 | LType::U32 | LType::F32 => Some(4),
        LType::I64 | LType::U64 | LType::F64 => Some(8),
        LType::Void => Some(0),
        LType::LArray(a) => match spec_size(*a.ltype) {
            Some(es) => Some(es * a.size),
            None => None,
        },
        LType::LStructure | LType::LFunction(_) => None,
    }
}

/// The native scalar kind of a resolved type, where one is defined.
pub open spec fn spec_scalar(t: LType) -> Option<ScalarType> {
    match t {
        LType::I8 | LType::U8 => Some(ScalarType::I8),
        LType::I16 | LType::U16 => Some(ScalarType::I16),
        LType::I32 | LType::U32 => Some(ScalarType::I32),
        LType::I64 | LType::U64 => Some(ScalarType::I64),
        LType::F32 => Some(ScalarType::F32),
        LType::F64 => Some(ScalarType::F64),
        LType::LArray(_) => Some(ScalarType::I64),
        LType::Void | LType::LStructure | LType::LFunction(_) => None,
    }
}

/// A defined byte size is never negative.
pub proof fn lemma_spec_size_nonneg(t: LType)
    ensures
        spec_size(t) is Some ==> spec_size(t)->Some_0 >= 0,
    decreases t,
{
    match t {
        LType::LArray(a) => {
            lemma_spec_size_nonneg(*a.ltype);
            if spec_size(*a.ltype) is Some {
                let ni = spec_size(*a.ltype)->Some_0;
                assert(ni * a.size >= 0) by (nonlinear_arith)
                    requires
                        ni >= 0,
                        a.size >= 0,
                ;
            }
        },
        _ => {},
    }
}

/// Resolution is a pure function of the input tree: the resolution
/// relation admits at most one outcome per type expression, so resolving
/// the same `TypeExpr` twice yields structurally equal values.
pub proof fn lemma_resolution_deterministic(
    t: TypeExpr,
    r1: Result<LType, TypeError>,
    r2: Result<LType, TypeError>,
)
    requires
        resolves_to(t, r1),
        resolves_to(t, r2),
    ensures
        r1 == r2,
    decreases t,
{
    match t {
        TypeExpr::Array(el, sz) => {
            if r1 is Ok && r2 is Ok {
                let a1 = r1->Ok_0->LArray_0;
                let a2 = r2->Ok_0->LArray_0;
                lemma_resolution_deterministic(*el, Ok(*a1.ltype), Ok(*a2.ltype));
                assert(a1 == a2);
            }
        },
        _ => {},
    }
}


/// For any non-empty digit text whose value fits the machine word, an
/// array shape over a resolvable element resolves to an array of exactly
/// the decoded count; no other text ever reaches this decoding, since
/// the grammar admits only digit runs as integer literals.
pub proof fn lemma_array_count_resolution(
    d: Seq<u8>,
    t: TypeExpr,
    r: Result<LType, TypeError>,
)
    requires
        d.len() > 0,
        is_digits(d),
        digits_val(d) <= usize::MAX,
        t matches TypeExpr::Array(el, sz) && resolve_err(*el) is None && (*sz
            matches Expr::Literal(z) && z@ == d),
        resolves_to(t, r),
    ensures
        r matches Ok(l) && l matches LType::LArray(a) && a.size as int == digits_val(d)
            && resolves_to(*t->Array_0, Ok(*a.ltype)),
{
    assert(resolve_err(t) is None);
}

/// An array shape whose size slot is not an integer literal never
/// resolves: with a resolvable element, the outcome is exactly the
/// non-literal-size error, a hard constraint of the resolver.
pub proof fn lemma_non_literal_size_rejected(t: TypeExpr, r: Result<LType, TypeError>)
    requires
        t matches TypeExpr::Array(el, sz) && resolve_err(*el) is None && !(*sz
            matches Expr::Literal(zz)),
        resolves_to(t, r),
    ensures
        r == Err::<LType, TypeError>(TypeError::NonLiteralArraySize),
{
    assert(resolve_err(t) == Some(TypeError::NonLiteralArraySize));
}

/// Whether every byte of `v` is a decimal digit: the check a caller
/// needs before handing text to [`decode_count`].
pub fn all_digits(v: &Vec<u8>) -> (r: bool)
    ensures
        r == is_digits(v@),
{
    let mut i: usize = 0;
    while i < v.len()
        invariant
            0 <= i <= v@.len(),
            forall|k: int| 0 <= k < i ==> is_digit(#[trigger] v@[k]),
        decreases v@.len() - i,
    {
        let c = v[i];
        if !(48 <= c && c <= 57) {
            return false;
        }
        i = i + 1;
    }
    true
}

/// Decodes a digit sequence as an unsigned count, or reports that it does
/// not fit the machine word.
pub fn decode_count(text: &Vec<u8>) -> (r: Option<usize>)
    requires
        text@.len() > 0,
        is_digits(text@),
    ensures
        match r {
            Some(n) => n as int == digits_val(text@),
            None => digits_val(text@) > usize::MAX,
        },
{
    let mut acc: usize = 0;
    let mut i: usize = 0;
    proof {
        assert(text@.subrange(0, 0) =~= Seq::<u8>::empty());
    }
    while i < text.len()
        invariant
            0 <= i <= text@.len(),
            is_digits(text@),
            acc as int == digits_val(text@.subrange(0, i as int)),
        decreases text@.len() - i,
    {
        let c = text[i];
        proof {
            assert(is_digit(text@[i as int]));
            lemma_digits_val_step(text@, i as int);
        }
        let d = (c - 48) as usize;
        match acc.checked_mul(10) {
            Some(p) => match p.checked_add(d) {
                Some(v) => {
                    acc = v;
                },
                None => {
                    proof {
                        lemma_digits_val_grows(text@, i as int + 1);
                    }
                    return None;
                },
            },
            None => {
                proof {
                    lemma_digits_val_nonneg(text@.subrange(0, i as int));
                    lemma_digits_val_grows(text@, i as int + 1);
                }
                return None;
            },
        }
        i = i + 1;
    }
    proof {
        assert(text@.subrange(0, text@.len() as int) =~= text@);
    }
    Some(acc)
}

/// Copies a byte string.
fn copy_bytes(v: &Vec<u8>) -> (r: Vec<u8>)
    ensures
        r@ == v@,
{
    let mut out: Vec<u8> = Vec::new();
    let mut i: usize = 0;
    while i < v.len()
        invariant
            0 <= i <= v@.len(),
            out@ =~= v@.subrange(0, i as int),
        decreases v@.len() - i,
    {
        out.push(v[i]);
        i = i + 1;
    }
    proof {
        assert(v@.subrange(0, v@.len() as int) =~= v@);
    }
    out
}

/// The primitive kind an identifier names, if any.
fn name_kind(n: &Vec<u8>) -> (r: Option<LType>)
    ensures
        r == scalar_name(n@),
{
    if n.len() == 2 {
        let c0 = n[0];
        let c1 = n[1];
        if c0 == 105 && c1 == 56 {
            proof { assert(n@ =~= seq![105u8, 56u8]); }
            return Some(LType::I8);
        }
        if c0 == 117 && c1 == 56 {
            proof { assert(n@ =~= seq![117u8, 56u8]); }
            return Some(LType::U8);
        }
    } else if n.len() == 3 {
        let c0 = n[0];
        let c1 = n[1];
        let c2 = n[2];
        if c0 == 105 && c1 == 49 && c2 == 54 {
            proof { assert(n@ =~= seq![105u8, 49u8, 54u8]); }
            return Some(LType::I16);
        }
        if c0 == 105 && c1 == 51 && c2 == 50 {
            proof { assert(n@ =~= seq![105u8, 51u8, 50u8]); }
            return Some(LType::I32);
        }
        if c0 == 105 && c1 == 54 && c2 == 52 {
            proof { assert(n@ =~= seq![105u8, 54u8, 52u8]); }
            return Some(LType::I64);
        }
        if c0 == 117 && c1 == 49 && c2 == 54 {
            proof { assert(n@ =~= seq![117u8, 49u8, 54u8]); }
            return Some(LType::U16);
        }
        if c0 == 117 && c1 == 51 && c2 == 50 {
            proof { assert(n@ =~= seq![117u8, 51u8, 50u8]); }
            return Some(LType::U32);
        }
        if c0 == 117 && c1 == 54 && c2 == 52 {
            proof { assert(n@ =~= seq![117u8, 54u8, 52u8]); }
            return Some(LType::U64);
        }
        if c0 == 102 && c1 == 51 && c2 == 50 {
            proof { assert(n@ =~= seq![102u8, 51u8, 50u8]); }
            return Some(LType::F32);
        }
        if c0 == 102 && c1 == 54 && c2 == 52 {
            proof { assert(n@ =~= seq![102u8, 54u8, 52u8]); }
            return Some(LType::F64);
        }
    }
    None
}

impl LType {
    /// Resolves a basic type annotation: a primitive name or void. Array
    /// shapes are not basic.
    pub fn parse_basic_ident(input: &TypeExpr) -> (r: Option<LType>)
        ensures
            r == spec_basic(*input),
    {
        match input {
            TypeExpr::Ident(n) => name_kind(n),
            TypeExpr::Void => Some(LType::Void),
            TypeExpr::Array(_, _) => None,
        }
    }

    /// Resolves any type annotation, recursing through array shapes. An
    /// array size slot must hold an integer literal that fits the machine
    /// word; anything else is an explicit error.
    pub fn parse_type(input: &TypeExpr) -> (r: Result<LType, TypeError>)
        ensures
            resolves_to(*input, r),
        decreases *input,
    {
        match input {
            TypeExpr::Ident(_) | TypeExpr::Void => match Self::parse_basic_ident(input) {
                Some(l) => Ok(l),
                None => Err(TypeError::UnknownTypeName),
            },
            TypeExpr::Array(el, sz) => {
                let lt = match Self::parse_type(&**el) {
                    Ok(l) => l,
                    Err(e) => {
                        return Err(e);
                    },
                };
                match &**sz {
                    Expr::Literal(txt) => {
                        if txt.len() == 0 || !all_digits(txt) {
                            Err(TypeError::NonLiteralArraySize)
                        } else {
                            match decode_count(txt) {
                                Some(n) => {
                                    let bx = Box::new(lt);
                                    Ok(LType::LArray(LArrayType { ltype: bx, size: n }))
                                },
                                None => Err(TypeError::ArraySizeTooLarge),
                            }
                        }
                    },
                    _ => Err(TypeError::NonLiteralArraySize),
                }
            },
        }
    }

    /// Resolves a function prototype to a function machine type. Only
    /// primitive and void parameter and return annotations are accepted,
    /// a deliberate simplification.
    pub fn parse_function_def(input: &DefFuncExpr) -> (r: Result<LType, TypeError>)
        ensures
            match r {
                Ok(l) => {
                    &&& l matches LType::LFunction(f)
                    &&& f.name@ == input.name@
                    &&& f.modifiers == input.modifiers
                    &&& f.params@.len() == input.params@.len()
                    &&& forall|k: int|
                        0 <= k < input.params@.len() ==> (#[trigger] f.params@[k]).0@
                            == input.params@[k].0@ && Some(f.params@[k].1) == spec_basic(
                            input.params@[k].1,
                        )
                    &&& Some(*f.return_type) == spec_basic(input.return_type)
                },
                Err(e) => {
                    ||| exists|k: int|
                        0 <= k < input.params@.len() && spec_basic(#[trigger] input.params@[k].1)
                            is None && e == basic_fail_err(input.params@[k].1) && (forall|m: int|
                            0 <= m < k ==> spec_basic(#[trigger] input.params@[m].1) is Some)
                    ||| (forall|m: int|
                        0 <= m < input.params@.len() ==> spec_basic(#[trigger] input.params@[m].1)
                            is Some) && spec_basic(input.return_type) is None && e
                        == basic_fail_err(input.return_type)
                },
            },
    {
        let mut params: Vec<(Vec<u8>, LType)> = Vec::new();
        let mut i: usize = 0;
        while i < input.params.len()
            invariant
                0 <= i <= input.params@.len(),
                params@.len() == i,
                forall|k: int|
                    0 <= k < i ==> (#[trigger] params@[k]).0@ == input.params@[k].0@,
                forall|k: int|
                    0 <= k < i ==> Some((#[trigger] params@[k]).1) == spec_basic(
                        input.params@[k].1,
                    ),
            decreases input.params@.len() - i,
        {
            let p = &input.params[i];
            match Self::parse_basic_ident(&p.1) {
                Some(lt) => {
                    let name_copy = copy_bytes(&p.0);
                    params.push((name_copy, lt));
                    proof {
                        assert(params@[i as int].0@ == input.params@[i as int].0@);
                        assert(Some(params@[i as int].1) == spec_basic(input.params@[i as int].1));
                    }
                },
                None => {
                    let e = match &p.1 {
                        TypeExpr::Array(_, _) => TypeError::UnsupportedSignatureType,
                        _ => TypeError::UnknownTypeName,
                    };
                    proof {
                        assert(spec_basic(input.params@[i as int].1) is None);
                        assert forall|m: int|
                            0 <= m < i implies spec_basic(
                            #[trigger] input.params@[m].1,
                        ) is Some by {
                            assert(Some(params@[m].1) == spec_basic(input.params@[m].1));
                        }
                    }
                    return Err(e);
                },
            }
            i = i + 1;
        }
        proof {
            assert forall|m: int|
                0 <= m < input.params@.len() implies spec_basic(
                #[trigger] input.params@[m].1,
            ) is Some by {
                assert(Some(params@[m].1) == spec_basic(input.params@[m].1));
            }
        }
        let ret = match Self::parse_basic_ident(&input.return_type) {
            Some(lt) => lt,
            None => {
                let e = match &input.return_type {
                    TypeExpr::Array(_, _) => TypeError::UnsupportedSignatureType,
                    _ => TypeError::UnknownTypeName,
                };
                return Err(e);
            },
        };
        Ok(
            LType::LFunction(
                LFunctionType {
                    name: copy_bytes(&input.name),
                    params,
                    return_type: Box::new(ret),
                    modifiers: input.modifiers,
                },
            ),
        )
    }

    /// The native scalar kind of this type, if it has a register
    /// representation: aggregates, functions and void do not.
    pub fn try_to_type(&self) -> (r: Option<ScalarType>)
        ensures
            r == spec_scalar(*self),
    {
        match self {
            LType::I8 | LType::U8 => Some(ScalarType::I8),
            LType::I16 | LType::U16 => Some(ScalarType::I16),
            LType::I32 | LType::U32 => Some(ScalarType::I32),
            LType::I64 | LType::U64 => Some(ScalarType::I64),
            LType::F32 => Some(ScalarType::F32),
            LType::F64 => Some(ScalarType::F64),
            LType::LArray(_) => Some(ScalarType::I64),
            LType::Void | LType::LStructure | LType::LFunction(_) => None,
        }
    }

    /// The native scalar kind of this type, failing explicitly where none
    /// is defined.
    pub fn to_type(&self) -> (r: Result<ScalarType, TypeError>)
        ensures
            match spec_scalar(*self) {
                Some(k) => r == Ok::<ScalarType, TypeError>(k),
                None => r == Err::<ScalarType, TypeError>(TypeError::NoScalarKind),
            },
    {
        match self.try_to_type() {
            Some(k) => Ok(k),
            None => Err(TypeError::NoScalarKind),
        }
    }

    /// The size of this type in bytes; fails explicitly for the aggregate
    /// placeholder, for function kinds, and where the size exceeds the
    /// machine word.
    pub fn byte_size(&self) -> (r: Result<usize, TypeError>)
        ensures
            match spec_size(*self) {
                Some(n) => if n <= usize::MAX {
                    r == Ok::<usize, TypeError>(n as usize)
                } else {
                    r == Err::<usize, TypeError>(TypeError::SizeOverflow)
                },
                None => r == Err::<usize, TypeError>(TypeError::NoDefinedSize),
            },
        decreases *self,
    {
        match self {
            LType::I8 | LType::U8 => Ok(1),
            LType::I16 | LType::U16 => Ok(2),
            LType::I32 | LType::U32 | LType::F32 => Ok(4),
            LType::I64 | LType::U64 | LType::F64 => Ok(8),
            LType::Void => Ok(0),
            LType::LStructure => Err(TypeError::NoDefinedSize),
            LType::LFunction(_) => Err(TypeError::NoDefinedSize),
            LType::LArray(arr) => {
                proof {
                    lemma_spec_size_nonneg(*arr.ltype);
                }
                let inner = (&*arr.ltype).byte_size();
                match inner {
                    Ok(es) => match es.checked_mul(arr.size) {
                        Some(p) => Ok(p),
                        None => Err(TypeError::SizeOverflow),
                    },
                    Err(e) => {
                        if arr.size == 0 {
                            match e {
                                TypeError::NoDefinedSize => Err(TypeError::NoDefinedSize),
                                _ => Ok(0),
                            }
                        } else {
                            proof {
                                if spec_size(*arr.ltype) is Some {
                                    let n = spec_size(*arr.ltype)->Some_0;
                                    assert(n * arr.size >= n) by (nonlinear_arith)
                                        requires
                                            n > usize::MAX,
                                            arr.size >= 1,
                                    ;
                                }
                            }
                            Err(e)
                        }
                    },
                }
            },
        }
    }
}

} // verus!
