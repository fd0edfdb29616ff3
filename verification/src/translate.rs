//! How a declared signature is carried across the call boundary.
//!
//! A type is either a scalar of the engine's calling convention, which
//! crosses as it is, or a structured type, which crosses as the offset of a
//! wire record. Adapters are generated from the plan that is made here.

use vstd::prelude::*;
use crate::host::call::ReturnKind;
use crate::host::import::ArgKind;

verus! {

/// What matters of a declared type: its outermost form.
#[derive(Debug)]
pub enum TypeShape {
    /// A named type, with the last segment of its path.
    Path(String),
    /// A reference; `lifetime` says that it names a lifetime, `mutable`
    /// that it is `&mut`.
    Reference { lifetime: bool, mutable: bool },
    Array,
    Tuple,
    /// Every other form of type.
    Other,
}

/// Which descriptor stands for a structured value.
#[derive(Debug, Clone, Copy, PartialEq, Eq)]
pub enum WrapMode {
    /// The other side owns the record; this side only reads it.
    Encoded,
    /// This side owns the record and frees it.
    Managed,
}

/// Which type the descriptor is a descriptor of.
#[derive(Debug, Clone, Copy, PartialEq, Eq)]
pub enum WrapTarget {
    /// The type behind the reference.
    Referent,
    /// The declared type itself.
    Whole,
}

/// How a declared type crosses the boundary.
#[derive(Debug, Clone, Copy, PartialEq, Eq)]
pub enum TypeTranslation {
    /// As it is.
    Original,
    /// As a descriptor of the given kind.
    Wrapped { mode: WrapMode, target: WrapTarget },
}

/// A declared type that cannot cross the boundary, by its place in the
/// signature.
#[derive(Debug, Clone, Copy, PartialEq, Eq)]
pub struct UnsupportedType {
    pub index: usize,
}

/// How the arguments of a signature cross the boundary.
#[derive(Debug)]
pub struct ArgumentPlan {
    /// Argument by argument, whether it crosses as a scalar or a record.
    pub kinds: Vec<ArgKind>,
    /// The places of the arguments that cross as records, in order: a
    /// record is made or read for each of them before the call, and
    /// released after it where this side owns it.
    pub wrapped: Vec<usize>,
}

/// The name is one of the scalar types of the calling convention.
pub open spec fn atom_name(name: Seq<char>) -> bool {
    ||| name == "bool"@
    ||| name == "char"@
    ||| name == "u8"@
    ||| name == "u16"@
    ||| name == "u32"@
    ||| name == "u64"@
    ||| name == "i8"@
    ||| name == "i16"@
    ||| name == "i32"@
    ||| name == "i64"@
}

/// How a type of the given shape crosses the boundary, or `None` when it
/// cannot: scalars as they are; plain shared references as a descriptor of
/// what they refer to; arrays, tuples and, where `allow_owned` holds,
/// other named types as a descriptor of themselves.
pub open spec fn translation_of(ty: TypeShape, mode: WrapMode, allow_owned: bool) -> Option<
    TypeTranslation,
> {
    match ty {
        TypeShape::Path(name) => if atom_name(name@) {
            Some(TypeTranslation::Original)
        } else if allow_owned {
            Some(TypeTranslation::Wrapped { mode, target: WrapTarget::Whole })
        } else {
            None
        },
        TypeShape::Reference { lifetime, mutable } => if !lifetime && !mutable {
            Some(TypeTranslation::Wrapped { mode, target: WrapTarget::Referent })
        } else {
            None
        },
        TypeShape::Array => Some(TypeTranslation::Wrapped { mode, target: WrapTarget::Whole }),
        TypeShape::Tuple => Some(TypeTranslation::Wrapped { mode, target: WrapTarget::Whole }),
        TypeShape::Other => None,
    }
}

/// A type of the given shape can cross the boundary.
pub open spec fn supported(ty: TypeShape, allow_owned: bool) -> bool {
    match ty {
        TypeShape::Path(name) => atom_name(name@) || allow_owned,
        TypeShape::Reference { lifetime, mutable } => !lifetime && !mutable,
        TypeShape::Array => true,
        TypeShape::Tuple => true,
        TypeShape::Other => false,
    }
}

/// Whether a translated type crosses as a scalar or as a record.
pub open spec fn kind_of(translation: TypeTranslation) -> ArgKind {
    match translation {
        TypeTranslation::Original => ArgKind::Scalar,
        TypeTranslation::Wrapped { .. } => ArgKind::Structured,
    }
}

/// Every argument type of the signature can cross the boundary.
pub open spec fn arguments_supported(types: Seq<TypeShape>, mode: WrapMode) -> bool {
    forall|at: int| 0 <= at < types.len() ==> translation_of(#[trigger] types[at], mode, false) is Some
}

/// Whether two strings are the same.
fn same_text(first: &str, second: &str) -> (same: bool)
    ensures
        same == (first@ == second@),
{
    first.to_owned() == second.to_owned()
}

/// Whether the name is one of the scalar types of the calling convention.
pub fn is_atom_type(ty: &str) -> (atom: bool)
    ensures
        atom == atom_name(ty@),
{
    same_text(ty, "bool") || same_text(ty, "char") || same_text(ty, "u8") || same_text(ty, "u16")
        || same_text(ty, "u32") || same_text(ty, "u64") || same_text(ty, "i8") || same_text(
        ty,
        "i16",
    ) || same_text(ty, "i32") || same_text(ty, "i64")
}

/// Whether a type of the given shape can cross the boundary.
pub fn is_supported(ty: &TypeShape, allow_owned: bool) -> (crosses: bool)
    ensures
        crosses == supported(*ty, allow_owned),
        forall|mode: WrapMode| crosses == (#[trigger] translation_of(*ty, mode, allow_owned) is Some),
{
    match ty {
        TypeShape::Path(name) => is_atom_type(name.as_str()) || allow_owned,
        TypeShape::Reference { lifetime, mutable } => !*lifetime && !*mutable,
        TypeShape::Array => true,
        TypeShape::Tuple => true,
        TypeShape::Other => false,
    }
}

/// How a type of the given shape crosses the boundary. The type has to be
/// one that can cross.
pub fn translate_type(ty: &TypeShape, mode: WrapMode, allow_owned: bool) -> (translation:
    TypeTranslation)
    requires
        supported(*ty, allow_owned),
    ensures
        translation_of(*ty, mode, allow_owned) == Some(translation),
{
    match ty {
        TypeShape::Path(name) => {
            if is_atom_type(name.as_str()) {
                TypeTranslation::Original
            } else {
                TypeTranslation::Wrapped { mode, target: WrapTarget::Whole }
            }
        },
        TypeShape::Reference { .. } => TypeTranslation::Wrapped {
            mode,
            target: WrapTarget::Referent,
        },
        _ => TypeTranslation::Wrapped { mode, target: WrapTarget::Whole },
    }
}

/// Plans how the arguments of a signature cross the boundary. The first
/// argument whose type cannot cross is reported by its place.
pub fn plan_arguments(types: &Vec<TypeShape>, mode: WrapMode) -> (made: Result<
    ArgumentPlan,
    UnsupportedType,
>)
    ensures
        made is Ok <==> arguments_supported(types@, mode),
        made matches Ok(plan) ==> {
            &&& plan.kinds@.len() == types@.len()
            &&& forall|at: int|
                0 <= at < types@.len() ==> #[trigger] plan.kinds@[at] == kind_of(
                    translation_of(types@[at], mode, false)->0,
                )
            &&& forall|first: int, second: int|
                0 <= first < second < plan.wrapped@.len() ==> plan.wrapped@[first]
                    < plan.wrapped@[second]
            &&& forall|at: int|
                0 <= at < plan.wrapped@.len() ==> 0 <= #[trigger] plan.wrapped@[at] < types@.len()
                    && plan.kinds@[plan.wrapped@[at] as int] is Structured
            &&& forall|at: int|
                0 <= at < types@.len() && plan.kinds@[at] is Structured
                    ==> plan.wrapped@.contains(at as usize)
        },
        made matches Err(refused) ==> {
            &&& refused.index < types@.len()
            &&& translation_of(types@[refused.index as int], mode, false) is None
            &&& forall|before: int|
                0 <= before < refused.index ==> translation_of(
                    #[trigger] types@[before],
                    mode,
                    false,
                ) is Some
        },
{
    let mut kinds: Vec<ArgKind> = Vec::new();
    let mut wrapped: Vec<usize> = Vec::new();
    let mut at: usize = 0;
    while at < types.len()
        invariant
            at <= types@.len(),
            kinds@.len() == at,
            forall|before: int|
                0 <= before < at ==> translation_of(#[trigger] types@[before], mode, false) is Some,
            forall|before: int|
                0 <= before < at ==> #[trigger] kinds@[before] == kind_of(
                    translation_of(types@[before], mode, false)->0,
                ),
            forall|first: int, second: int|
                0 <= first < second < wrapped@.len() ==> wrapped@[first] < wrapped@[second],
            forall|place: int|
                0 <= place < wrapped@.len() ==> 0 <= #[trigger] wrapped@[place] < at
                    && kinds@[wrapped@[place] as int] is Structured,
            forall|before: int|
                0 <= before < at && kinds@[before] is Structured ==> wrapped@.contains(
                    before as usize,
                ),
        decreases types@.len() - at,
    {
        if !is_supported(&types[at], false) {
            return Err(UnsupportedType { index: at });
        }
        match translate_type(&types[at], mode, false) {
            TypeTranslation::Original => {
                kinds.push(ArgKind::Scalar);
                assert forall|before: int|
                    0 <= before < at + 1 && kinds@[before] is Structured implies wrapped@.contains(
                    before as usize,
                ) by {}
            },
            TypeTranslation::Wrapped { .. } => {
                let ghost earlier = wrapped@;
                kinds.push(ArgKind::Structured);
                wrapped.push(at);
                assert forall|before: int|
                    0 <= before < at + 1 && kinds@[before] is Structured implies wrapped@.contains(
                    before as usize,
                ) by {
                    if before < at {
                        let place = choose|place: int|
                            0 <= place < earlier.len() && earlier[place] == before as usize;
                        assert(wrapped@[place] == before as usize);
                    } else {
                        assert(wrapped@[earlier.len() as int] == before as usize);
                    }
                }
            },
        }
        at = at + 1;
    }
    Ok(ArgumentPlan { kinds, wrapped })
}

/// Plans how the result of a signature crosses the boundary: nothing for
/// no result, the value for a scalar, a record that the receiving side
/// frees for anything else that can cross.
pub fn plan_output(output: &Option<TypeShape>) -> (made: Result<ReturnKind, UnsupportedType>)
    ensures
        output is None ==> made == Ok::<ReturnKind, UnsupportedType>(ReturnKind::Unit),
        output matches Some(ty) ==> (match translation_of(*ty, WrapMode::Managed, true) {
            Some(TypeTranslation::Original) => made == Ok::<ReturnKind, UnsupportedType>(
                ReturnKind::Scalar,
            ),
            Some(TypeTranslation::Wrapped { .. }) => made == Ok::<ReturnKind, UnsupportedType>(
                ReturnKind::Structured,
            ),
            None => made == Err::<ReturnKind, UnsupportedType>(UnsupportedType { index: 0 }),
        }),
{
    match output {
        None => Ok(ReturnKind::Unit),
        Some(ty) => {
            if !is_supported(ty, true) {
                return Err(UnsupportedType { index: 0 });
            }
            match translate_type(ty, WrapMode::Managed, true) {
                TypeTranslation::Original => Ok(ReturnKind::Scalar),
                TypeTranslation::Wrapped { .. } => Ok(ReturnKind::Structured),
            }
        },
    }
}

} // verus!
