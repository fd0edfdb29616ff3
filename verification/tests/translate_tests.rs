use scotch::host::call::ReturnKind;
use scotch::host::import::ArgKind;
use scotch::translate::is_atom_type;
use scotch::translate::is_supported;
use scotch::translate::plan_arguments;
use scotch::translate::plan_output;
use scotch::translate::translate_type;
use scotch::translate::TypeShape;
use scotch::translate::TypeTranslation;
use scotch::translate::UnsupportedType;
use scotch::translate::WrapMode;
use scotch::translate::WrapTarget;

fn path(name: &str) -> TypeShape {
    TypeShape::Path(name.to_string())
}

fn shared() -> TypeShape {
    TypeShape::Reference { lifetime: false, mutable: false }
}

#[test]
fn the_ten_scalar_names_are_atoms() {
    for name in ["bool", "char", "u8", "u16", "u32", "u64", "i8", "i16", "i32", "i64"] {
        assert!(is_atom_type(name), "{name}");
    }
}

#[test]
fn other_names_are_no_atoms() {
    for name in ["", "String", "f32", "f64", "usize", "isize", "u128", "i", "i3", "i322", "Bool", "u 8", "Vec"] {
        assert!(!is_atom_type(name), "{name}");
    }
}

#[test]
fn scalars_cross_as_they_are() {
    for mode in [WrapMode::Encoded, WrapMode::Managed] {
        for owned in [false, true] {
            assert_eq!(translate_type(&path("i32"), mode, owned), TypeTranslation::Original);
            assert_eq!(translate_type(&path("bool"), mode, owned), TypeTranslation::Original);
        }
    }
}

#[test]
fn plain_shared_references_cross_as_a_descriptor_of_the_referent() {
    assert_eq!(
        translate_type(&shared(), WrapMode::Encoded, false),
        TypeTranslation::Wrapped { mode: WrapMode::Encoded, target: WrapTarget::Referent }
    );
    assert_eq!(
        translate_type(&shared(), WrapMode::Managed, true),
        TypeTranslation::Wrapped { mode: WrapMode::Managed, target: WrapTarget::Referent }
    );
}

#[test]
fn references_with_a_lifetime_or_mutability_do_not_cross() {
    let named = TypeShape::Reference { lifetime: true, mutable: false };
    let exclusive = TypeShape::Reference { lifetime: false, mutable: true };
    let both = TypeShape::Reference { lifetime: true, mutable: true };
    for shape in [named, exclusive, both] {
        assert!(!is_supported(&shape, true));
        assert!(!is_supported(&shape, false));
    }
    assert!(is_supported(&shared(), false));
}

#[test]
fn arrays_and_tuples_cross_as_a_descriptor_of_themselves() {
    for shape in [TypeShape::Array, TypeShape::Tuple] {
        assert_eq!(
            translate_type(&shape, WrapMode::Managed, false),
            TypeTranslation::Wrapped { mode: WrapMode::Managed, target: WrapTarget::Whole }
        );
    }
}

#[test]
fn owned_named_types_cross_only_where_they_are_allowed() {
    assert!(!is_supported(&path("String"), false));
    assert!(is_supported(&path("String"), true));
    assert!(is_supported(&path("i32"), false));
    assert!(is_supported(&TypeShape::Array, false));
    assert!(is_supported(&TypeShape::Tuple, false));
    assert!(!is_supported(&TypeShape::Other, true));
    assert_eq!(
        translate_type(&path("String"), WrapMode::Managed, true),
        TypeTranslation::Wrapped { mode: WrapMode::Managed, target: WrapTarget::Whole }
    );
}

#[test]
fn argument_plan_lists_kinds_and_wrapped_places() {
    let types = vec![path("i32"), shared(), path("u8"), TypeShape::Tuple, TypeShape::Array];
    let plan = plan_arguments(&types, WrapMode::Encoded).unwrap();
    assert_eq!(
        plan.kinds,
        vec![
            ArgKind::Scalar,
            ArgKind::Structured,
            ArgKind::Scalar,
            ArgKind::Structured,
            ArgKind::Structured
        ]
    );
    assert_eq!(plan.wrapped, vec![1, 3, 4]);
}

#[test]
fn argument_plan_of_no_arguments_is_empty() {
    let plan = plan_arguments(&vec![], WrapMode::Managed).unwrap();
    assert!(plan.kinds.is_empty());
    assert!(plan.wrapped.is_empty());
}

#[test]
fn argument_plan_reports_the_first_unsupported_argument() {
    let types = vec![path("i32"), path("String"), TypeShape::Other];
    assert_eq!(plan_arguments(&types, WrapMode::Managed).unwrap_err(), UnsupportedType { index: 1 });
    let types = vec![shared(), TypeShape::Reference { lifetime: false, mutable: true }];
    assert_eq!(plan_arguments(&types, WrapMode::Encoded).unwrap_err(), UnsupportedType { index: 1 });
}

#[test]
fn output_plan() {
    assert_eq!(plan_output(&None), Ok(ReturnKind::Unit));
    assert_eq!(plan_output(&Some(path("i32"))), Ok(ReturnKind::Scalar));
    assert_eq!(plan_output(&Some(path("String"))), Ok(ReturnKind::Structured));
    assert_eq!(plan_output(&Some(path("f32"))), Ok(ReturnKind::Structured));
    assert_eq!(plan_output(&Some(TypeShape::Array)), Ok(ReturnKind::Structured));
    assert_eq!(plan_output(&Some(shared())), Ok(ReturnKind::Structured));
    assert_eq!(plan_output(&Some(TypeShape::Other)), Err(UnsupportedType { index: 0 }));
}
