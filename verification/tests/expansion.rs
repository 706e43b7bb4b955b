use intrinsic_gen::typespec::Error;
use intrinsic_gen::typespec::NumKind;
use intrinsic_gen::typespec::Number;
use intrinsic_gen::typespec::Type;
use intrinsic_gen::typespec::TypeSpec;

fn num(kind: NumKind, bitwidth: u32) -> Type {
    Type::Num(Number { kind, bitwidth, llvm_bitwidth: None })
}

fn is_num(t: &Type, kind: NumKind, bitwidth: u32, llvm: Option<u32>) -> bool {
    match t {
        Type::Num(n) => n.kind == kind && n.bitwidth == bitwidth && n.llvm_bitwidth == llvm,
        _ => false,
    }
}

fn is_vec_of_num(t: &Type, kind: NumKind, bitwidth: u32, length: u32) -> bool {
    match t {
        Type::Vector { elem, length: l, bitcast: None } => {
            *l == length && is_num(elem, kind, bitwidth, None)
        }
        _ => false,
    }
}

#[test]
fn single_width_scalar_both_kinds() {
    let r = TypeSpec::from_str("I32").enumerate(64, &[]).unwrap();
    assert_eq!(r.len(), 2);
    assert!(is_num(&r[0], NumKind::Signed, 32, None));
    assert!(is_num(&r[1], NumKind::Unsigned, 32, None));
}

#[test]
fn single_width_scalar_one_kind() {
    let r = TypeSpec::from_str("U8").enumerate(64, &[]).unwrap();
    assert_eq!(r.len(), 1);
    assert!(is_num(&r[0], NumKind::Unsigned, 8, None));
    let r = TypeSpec::from_str("F64").enumerate(128, &[]).unwrap();
    assert_eq!(r.len(), 1);
    assert!(is_num(&r[0], NumKind::Float, 64, None));
}

#[test]
fn lowercase_vectorizes_at_platform_width() {
    let r = TypeSpec::from_str("i32").enumerate(128, &[]).unwrap();
    assert_eq!(r.len(), 2);
    assert!(is_vec_of_num(&r[0], NumKind::Signed, 32, 4));
    assert!(is_vec_of_num(&r[1], NumKind::Unsigned, 32, 4));
}

#[test]
fn range_token_doubles_inclusively() {
    let r = TypeSpec::from_str("I(8-32)").enumerate(64, &[]).unwrap();
    assert_eq!(r.len(), 6);
    assert!(is_num(&r[0], NumKind::Signed, 8, None));
    assert!(is_num(&r[1], NumKind::Unsigned, 8, None));
    assert!(is_num(&r[2], NumKind::Signed, 16, None));
    assert!(is_num(&r[3], NumKind::Unsigned, 16, None));
    assert!(is_num(&r[4], NumKind::Signed, 32, None));
    assert!(is_num(&r[5], NumKind::Unsigned, 32, None));
}

#[test]
fn range_token_stops_before_overshoot() {
    let r = TypeSpec::from_str("U(8-20)").enumerate(64, &[]).unwrap();
    assert_eq!(r.len(), 2);
    assert!(is_num(&r[0], NumKind::Unsigned, 8, None));
    assert!(is_num(&r[1], NumKind::Unsigned, 16, None));
}

#[test]
fn empty_range_yields_nothing() {
    let r = TypeSpec::from_str("U(16-8)").enumerate(64, &[]).unwrap();
    assert_eq!(r.len(), 0);
}

#[test]
fn narrow_llvm_width_is_kept() {
    let r = TypeSpec::from_str("U16/8").enumerate(64, &[]).unwrap();
    assert_eq!(r.len(), 1);
    assert!(is_num(&r[0], NumKind::Unsigned, 16, Some(8)));
}

#[test]
fn void_token_ignores_trailing_parts() {
    let r = TypeSpec::from_str("V").enumerate(64, &[]).unwrap();
    assert_eq!(r.len(), 1);
    assert!(matches!(r[0], Type::Void));
    let r = TypeSpec::from_str("VPc").enumerate(64, &[]).unwrap();
    assert_eq!(r.len(), 1);
    assert!(matches!(r[0], Type::Void));
}

#[test]
fn reference_token_is_identity() {
    let prev = [num(NumKind::Signed, 32)];
    let r = TypeSpec::from_str("0").enumerate(64, &prev).unwrap();
    assert_eq!(r.len(), 1);
    assert!(is_num(&r[0], NumKind::Signed, 32, None));
}

#[test]
fn reference_const_pointer_suffix() {
    let prev = [num(NumKind::Unsigned, 8)];
    let r = TypeSpec::from_str("0Pc").enumerate(64, &prev).unwrap();
    assert_eq!(r.len(), 1);
    match &r[0] {
        Type::Pointer { elem, llvm_elem: None, is_const: true } => {
            assert!(is_num(elem, NumKind::Unsigned, 8, None));
        }
        other => panic!("expected const pointer, got {:?}", other),
    }
}

#[test]
fn pointer_suffix_with_explicit_pointee() {
    let r = TypeSpec::from_str("U8Pm/U16").enumerate(64, &[]).unwrap();
    assert_eq!(r.len(), 1);
    match &r[0] {
        Type::Pointer { elem, llvm_elem: Some(le), is_const: false } => {
            assert!(is_num(elem, NumKind::Unsigned, 8, None));
            assert!(is_num(le, NumKind::Unsigned, 16, None));
        }
        other => panic!("expected mut pointer with pointee, got {:?}", other),
    }
}

#[test]
fn ambiguous_pointee_fails() {
    let r = TypeSpec::from_str("U8Pm/i8").enumerate(64, &[]);
    assert!(matches!(r, Err(Error::AmbiguousPointee { count: 2 })));
}

#[test]
fn ambiguous_bitcast_fails() {
    let r = TypeSpec::from_str("i8->i8").enumerate(64, &[]);
    assert!(matches!(r, Err(Error::AmbiguousBitcast { count: 2 })));
}

#[test]
fn unique_bitcast_is_recorded() {
    let r = TypeSpec::from_str("s8->u8").enumerate(64, &[]).unwrap();
    assert_eq!(r.len(), 1);
    match &r[0] {
        Type::Vector { elem, length: 8, bitcast: Some(bc) } => {
            assert!(is_num(elem, NumKind::Signed, 8, None));
            assert!(is_vec_of_num(bc, NumKind::Unsigned, 8, 8));
        }
        other => panic!("expected vector with bitcast, got {:?}", other),
    }
}

#[test]
fn unknown_reference_fails() {
    let prev = [num(NumKind::Signed, 32)];
    let r = TypeSpec::from_str("3").enumerate(64, &prev);
    assert!(matches!(r, Err(Error::UnknownReference { index: 3, known: 1 })));
}

#[test]
fn scalarize_on_scalar_fails() {
    let r = TypeSpec::from_str("U8S").enumerate(64, &[]);
    assert!(matches!(r, Err(Error::UnsupportedModifier)));
}

#[test]
fn malformed_tokens_fail_to_parse() {
    for bad in ["", "q", "i", "0x", "I(8-)", "I(8-32", "U8Pq", "i8 ", "U8x", "i8.", "i8->", "I0", "I(0-8)"] {
        match TypeSpec::from_str(bad).enumerate(64, &[]) {
            Err(Error::Parse { token }) => assert_eq!(token, bad),
            other => panic!("token {:?} gave {:?}", bad, other),
        }
    }
}

#[test]
fn multi_token_slot_concatenates() {
    let ts = TypeSpec::from_list(&["I32".to_string(), "U8".to_string()]);
    let r = ts.enumerate(64, &[]).unwrap();
    assert_eq!(r.len(), 3);
    assert!(is_num(&r[0], NumKind::Signed, 32, None));
    assert!(is_num(&r[1], NumKind::Unsigned, 32, None));
    assert!(is_num(&r[2], NumKind::Unsigned, 8, None));
}

#[test]
fn modifier_order_matters() {
    // vectorize first, then widen the element: lane count fixed at 16-bit.
    let r = TypeSpec::from_str("S16vw").enumerate(64, &[]).unwrap();
    assert_eq!(r.len(), 1);
    assert!(is_vec_of_num(&r[0], NumKind::Signed, 32, 4));
    // widen first, then vectorize: lane count computed at 32-bit.
    let r = TypeSpec::from_str("S16wv").enumerate(64, &[]).unwrap();
    assert_eq!(r.len(), 1);
    assert!(is_vec_of_num(&r[0], NumKind::Signed, 32, 2));
}

#[test]
fn lane_count_modifiers() {
    let r = TypeSpec::from_str("i32h").enumerate(128, &[]).unwrap();
    assert!(is_vec_of_num(&r[0], NumKind::Signed, 32, 2));
    let r = TypeSpec::from_str("i32d").enumerate(128, &[]).unwrap();
    assert!(is_vec_of_num(&r[0], NumKind::Signed, 32, 8));
    let r = TypeSpec::from_str("i32x256").enumerate(128, &[]).unwrap();
    assert!(is_vec_of_num(&r[0], NumKind::Signed, 32, 8));
}

#[test]
fn kind_change_clears_llvm_width() {
    let r = TypeSpec::from_str("U16/8u").enumerate(64, &[]).unwrap();
    assert_eq!(r.len(), 1);
    assert!(is_num(&r[0], NumKind::Unsigned, 16, None));
}

#[test]
fn pointer_modifiers_through_reference() {
    let prev = [Type::Pointer {
        elem: Box::new(num(NumKind::Signed, 8)),
        llvm_elem: None,
        is_const: true,
    }];
    let r = TypeSpec::from_str("0D").enumerate(64, &prev).unwrap();
    assert!(is_num(&r[0], NumKind::Signed, 8, None));
    let r = TypeSpec::from_str("0M").enumerate(64, &prev).unwrap();
    assert!(matches!(&r[0], Type::Pointer { is_const: false, .. }));
    let r = TypeSpec::from_str("0u").enumerate(64, &prev).unwrap();
    match &r[0] {
        Type::Pointer { elem, is_const: true, .. } => {
            assert!(is_num(elem, NumKind::Unsigned, 8, None));
        }
        other => panic!("expected pointer, got {:?}", other),
    }
}

#[test]
fn vectorize_through_modifier() {
    let prev = [num(NumKind::Float, 32)];
    let r = TypeSpec::from_str("0v").enumerate(128, &prev).unwrap();
    assert!(is_vec_of_num(&r[0], NumKind::Float, 32, 4));
}

#[test]
fn index_selector_on_scalar_fails() {
    let r = TypeSpec::from_str("U8.2").enumerate(64, &[]);
    assert!(matches!(r, Err(Error::UnsupportedModifier)));
}

#[test]
fn narrow_llvm_width_violations_fail() {
    // not strictly smaller than the storage width
    let r = TypeSpec::from_str("U16/16").enumerate(64, &[]);
    assert!(matches!(r, Err(Error::InvalidWidth { width: 16 })));
    let r = TypeSpec::from_str("U16/32").enumerate(64, &[]);
    assert!(matches!(r, Err(Error::InvalidWidth { width: 32 })));
    // a vectorizing (lowercase) class cannot carry a narrow width
    let r = TypeSpec::from_str("i8/4").enumerate(64, &[]);
    assert!(matches!(r, Err(Error::InvalidWidth { width: 4 })));
}

#[test]
fn modifier_on_void_reference_fails() {
    let prev = [Type::Void];
    let r = TypeSpec::from_str("0").enumerate(64, &prev).unwrap();
    assert!(matches!(r[0], Type::Void));
    let r = TypeSpec::from_str("0w").enumerate(64, &prev);
    assert!(matches!(r, Err(Error::UnsupportedModifier)));
}
