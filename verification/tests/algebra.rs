use intrinsic_gen::render::PlatformTypeInfo;
use intrinsic_gen::typespec::Error;
use intrinsic_gen::typespec::Modifier;
use intrinsic_gen::typespec::NumKind;
use intrinsic_gen::typespec::Number;
use intrinsic_gen::typespec::Type;
use intrinsic_gen::typespec::TypeList;

fn num(kind: NumKind, bitwidth: u32) -> Type {
    Type::Num(Number { kind, bitwidth, llvm_bitwidth: None })
}

#[test]
fn widen_then_narrow_round_trips() {
    let n = Number { kind: NumKind::Signed, bitwidth: 16, llvm_bitwidth: None };
    let widened = Type::Num(n).modify(&Modifier::Widen, 64).unwrap();
    match &widened {
        Type::Num(w) => assert_eq!(w.bitwidth, 32),
        other => panic!("expected number, got {:?}", other),
    }
    let back = widened.modify(&Modifier::Narrow, 64).unwrap();
    match back {
        Type::Num(b) => {
            assert_eq!(b.bitwidth, 16);
            assert!(b.kind == NumKind::Signed);
            assert!(b.llvm_bitwidth.is_none());
        }
        other => panic!("expected number, got {:?}", other),
    }
}

#[test]
fn widen_overflow_is_invalid_width() {
    let n = Number { kind: NumKind::Unsigned, bitwidth: u32::MAX, llvm_bitwidth: None };
    let r = Type::Num(n).modify(&Modifier::Widen, 64);
    assert!(matches!(r, Err(Error::InvalidWidth { width: u32::MAX })));
}

#[test]
fn void_rejects_every_modifier() {
    for m in [Modifier::Widen, Modifier::Scalarize, Modifier::Deref, Modifier::Index(3)] {
        let r = Type::Void.modify(&m, 64);
        assert!(matches!(r, Err(Error::UnsupportedModifier)));
    }
}

#[test]
fn bitwidth_reports_scalars_only() {
    assert_eq!(num(NumKind::Signed, 32).bitwidth(), 32);
    assert_eq!(Type::Void.bitwidth(), 0);
    let v = Type::Vector { elem: Box::new(num(NumKind::Signed, 32)), length: 4, bitcast: None };
    assert_eq!(v.bitwidth(), 0);
}

#[test]
fn aggregate_index_selects_child() {
    let agg = Type::Aggregate {
        flatten: false,
        elems: TypeList::Item {
            first: Box::new(num(NumKind::Signed, 8)),
            rest: Box::new(TypeList::Item {
                first: Box::new(num(NumKind::Float, 32)),
                rest: Box::new(TypeList::Empty),
            }),
        },
    };
    let picked = agg.clone().modify(&Modifier::Index(1), 64).unwrap();
    match picked {
        Type::Num(n) => {
            assert!(n.kind == NumKind::Float);
            assert_eq!(n.bitwidth, 32);
        }
        other => panic!("expected number, got {:?}", other),
    }
    let oob = agg.clone().modify(&Modifier::Index(2), 64);
    assert!(matches!(oob, Err(Error::UnsupportedModifier)));
    let other = agg.modify(&Modifier::Widen, 64);
    assert!(matches!(other, Err(Error::UnsupportedModifier)));
}

#[test]
fn number_compiler_ctor_forms() {
    let n = Number { kind: NumKind::Signed, bitwidth: 32, llvm_bitwidth: None };
    assert_eq!(n.compiler_ctor(), "::I32");
    let n = Number { kind: NumKind::Unsigned, bitwidth: 16, llvm_bitwidth: Some(8) };
    assert_eq!(n.compiler_ctor(), "::U16_8");
    let n = Number { kind: NumKind::Float, bitwidth: 64, llvm_bitwidth: None };
    assert_eq!(n.compiler_ctor(), "::F64");
}

#[test]
fn number_rust_names() {
    let n = Number { kind: NumKind::Signed, bitwidth: 32, llvm_bitwidth: None };
    assert_eq!(n.rust_name(), "i32");
    let n = Number { kind: NumKind::Float, bitwidth: 128, llvm_bitwidth: None };
    assert_eq!(n.rust_name(), "f128");
}

#[test]
fn type_compiler_ctor_forms() {
    assert_eq!(Type::Void.compiler_ctor(), "::VOID");
    let v = Type::Vector { elem: Box::new(num(NumKind::Signed, 32)), length: 4, bitcast: None };
    assert_eq!(v.compiler_ctor(), "::I32x4");
    assert_eq!(v.compiler_ctor_ref(), "&::I32x4");
    let bc = Type::Vector {
        elem: Box::new(num(NumKind::Signed, 32)),
        length: 4,
        bitcast: Some(Box::new(Type::Vector {
            elem: Box::new(num(NumKind::Unsigned, 8)),
            length: 16,
            bitcast: None,
        })),
    };
    assert_eq!(bc.compiler_ctor(), "::I32x4_U8x16");
    let p = Type::Pointer { elem: Box::new(num(NumKind::Signed, 8)), llvm_elem: None, is_const: true };
    assert_eq!(p.compiler_ctor(), "Type::Pointer(&::I8, None, true)");
    assert_eq!(
        p.compiler_ctor_ref(),
        "{ static PTR: Type = Type::Pointer(&::I8, None, true); &PTR }"
    );
}

#[test]
fn aggregate_compiler_ctor_hoists_parts() {
    let agg = Type::Aggregate {
        flatten: false,
        elems: TypeList::Item {
            first: Box::new(num(NumKind::Signed, 8)),
            rest: Box::new(TypeList::Item {
                first: Box::new(num(NumKind::Float, 32)),
                rest: Box::new(TypeList::Empty),
            }),
        },
    };
    assert_eq!(
        agg.compiler_ctor(),
        "Type::Aggregate(false, { static PARTS: [&'static Type; 2] = [&::I8, &::F32]; &PARTS })"
    );
    assert_eq!(agg.rust_name(), "(i8, f32)");
}

#[test]
fn type_rust_names() {
    assert_eq!(Type::Void.rust_name(), "()");
    let p = Type::Pointer { elem: Box::new(num(NumKind::Signed, 8)), llvm_elem: None, is_const: true };
    assert_eq!(p.rust_name(), "*const i8");
    let m = Type::Pointer { elem: Box::new(num(NumKind::Unsigned, 64)), llvm_elem: None, is_const: false };
    assert_eq!(m.rust_name(), "*mut u64");
    let v = Type::Vector { elem: Box::new(num(NumKind::Float, 32)), length: 4, bitcast: None };
    assert_eq!(v.rust_name(), "f32x4");
}

#[test]
fn platform_type_info_pointer_prefixes_name() {
    let info = PlatformTypeInfo {
        llvm_name: "i32".to_string(),
        properties: vec![("width".to_string(), "32".to_string())],
        elems: vec!["x".to_string()],
    };
    let p = info.pointer(None);
    assert_eq!(p.llvm_name, "p0i32");
    assert_eq!(p.properties.len(), 1);
    assert_eq!(p.elems.len(), 0);

    let base = PlatformTypeInfo {
        llvm_name: "i32".to_string(),
        properties: vec![],
        elems: vec![],
    };
    let other = PlatformTypeInfo {
        llvm_name: "i8".to_string(),
        properties: vec![],
        elems: vec![],
    };
    let p = base.pointer(Some(&other));
    assert_eq!(p.llvm_name, "p0i8");
}
