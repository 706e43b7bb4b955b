use intrinsic_gen::parser::IntrinsicData;
use intrinsic_gen::parser::IntrinsicSet;
use intrinsic_gen::parser::MonomorphicIntrinsic;
use intrinsic_gen::parser::Platform;
use intrinsic_gen::parser::PlatformInfo;
use intrinsic_gen::parser::TypeVec;
use intrinsic_gen::typespec::Error;
use intrinsic_gen::typespec::NumKind;
use intrinsic_gen::typespec::Number;
use intrinsic_gen::typespec::Type;

fn data(intrinsic: &str, llvm: &str, ret: &[&str], args: &[&str]) -> IntrinsicData {
    IntrinsicData {
        intrinsic: intrinsic.to_string(),
        width: vec![],
        llvm: llvm.to_string(),
        ret: ret.iter().map(|s| s.to_string()).collect(),
        args: args.iter().map(|s| s.to_string()).collect(),
    }
}

fn platform(name: &str, widths: &[u32], sets: Vec<IntrinsicSet>) -> Platform {
    Platform {
        file_stem: String::new(),
        platform: Some(PlatformInfo { name: name.to_string(), widths: widths.to_vec() }),
        intrinsicset: sets,
    }
}

fn is_vec_of_num(t: &Type, kind: NumKind, bitwidth: u32, length: u32) -> bool {
    match t {
        Type::Vector { elem, length: l, bitcast: None } => match &**elem {
            Type::Num(n) => n.kind == kind && n.bitwidth == bitwidth && *l == length,
            _ => false,
        },
        _ => false,
    }
}

#[test]
fn one_template_reference_arg_width_64() {
    let p = platform(
        "test",
        &[64],
        vec![IntrinsicSet {
            intrinsic_prefix: String::new(),
            llvm_prefix: String::new(),
            intrinsics: vec![data("foo", "!bar", &["i32"], &["0"])],
        }],
    );
    let ms = p.monomorphise().unwrap();
    assert_eq!(ms.len(), 2);
    assert!(is_vec_of_num(&ms[0].ret, NumKind::Signed, 32, 2));
    assert!(is_vec_of_num(&ms[1].ret, NumKind::Unsigned, 32, 2));
    for m in &ms {
        assert_eq!(m.args.len(), 1);
        assert_eq!(m.len, 1);
        // the reference argument is structurally the return type
        assert_eq!(m.args[0].compiler_ctor(), m.ret.compiler_ctor());
        assert_eq!(m.intrinsic_set_name, "foo");
        assert_eq!(m.platform_prefix, "test");
        assert_eq!(m.llvm_name, "bar");
    }
}

#[test]
fn non_power_of_two_width_fails() {
    let p = platform(
        "test",
        &[24],
        vec![IntrinsicSet {
            intrinsic_prefix: String::new(),
            llvm_prefix: String::new(),
            intrinsics: vec![data("foo", "!bar", &["i32"], &["0"])],
        }],
    );
    let r = p.monomorphise();
    assert!(matches!(r, Err(Error::InvalidWidth { width: 24 })));
}

#[test]
fn prefixes_are_applied() {
    let p = platform(
        "arm",
        &[64],
        vec![IntrinsicSet {
            intrinsic_prefix: "vec_".to_string(),
            llvm_prefix: "llvm.arm.".to_string(),
            intrinsics: vec![data("add", "$add", &["U32"], &[])],
        }],
    );
    let ms = p.monomorphise().unwrap();
    assert_eq!(ms.len(), 1);
    assert_eq!(ms[0].intrinsic_set_name, "vec_add");
    // the first character of the pattern is the marker; the remainder is
    // prefixed with the set's LLVM prefix
    assert_eq!(ms[0].llvm_name, "llvm.arm.add");
    assert_eq!(ms[0].len, 0);
}

#[test]
fn cartesian_product_across_slots_and_widths() {
    let p = platform(
        "x",
        &[64, 128],
        vec![IntrinsicSet {
            intrinsic_prefix: String::new(),
            llvm_prefix: String::new(),
            intrinsics: vec![data("m", "!m", &["i16"], &["i8"])],
        }],
    );
    let ms = p.monomorphise().unwrap();
    // per width: 2 returns x 2 args = 4; two widths = 8
    assert_eq!(ms.len(), 8);
    assert!(is_vec_of_num(&ms[0].ret, NumKind::Signed, 16, 4));
    assert!(is_vec_of_num(&ms[0].args[0], NumKind::Signed, 8, 8));
    assert!(is_vec_of_num(&ms[1].ret, NumKind::Signed, 16, 4));
    assert!(is_vec_of_num(&ms[1].args[0], NumKind::Unsigned, 8, 8));
    assert!(is_vec_of_num(&ms[2].ret, NumKind::Unsigned, 16, 4));
    assert!(is_vec_of_num(&ms[7].ret, NumKind::Unsigned, 16, 8));
    assert!(is_vec_of_num(&ms[7].args[0], NumKind::Unsigned, 8, 16));
}

#[test]
fn slot_errors_abort_the_run() {
    let p = platform(
        "x",
        &[64],
        vec![IntrinsicSet {
            intrinsic_prefix: String::new(),
            llvm_prefix: String::new(),
            intrinsics: vec![data("m", "!m", &["i32"], &["7"])],
        }],
    );
    assert!(matches!(p.monomorphise(), Err(Error::UnknownReference { index: 7, known: 1 })));

    let p = platform(
        "x",
        &[64],
        vec![IntrinsicSet {
            intrinsic_prefix: String::new(),
            llvm_prefix: String::new(),
            intrinsics: vec![data("m", "!m", &["zzz"], &[])],
        }],
    );
    match p.monomorphise() {
        Err(Error::Parse { token }) => assert_eq!(token, "zzz"),
        other => panic!("expected parse error, got {:?}", other),
    }
}

#[test]
fn render_produces_one_table_entry() {
    let p = platform(
        "test",
        &[64],
        vec![IntrinsicSet {
            intrinsic_prefix: String::new(),
            llvm_prefix: String::new(),
            intrinsics: vec![data("foo", "!bar", &["i32"], &["0"])],
        }],
    );
    let ms = p.monomorphise().unwrap();
    let expected = "\n        \"foo\" => Intrinsic {\
                    \n            inputs: { static INPUTS: [&'static Type; 1] = [&::I32x2]; &INPUTS },\
                    \n            output: &&::I32x2,\
                    \n            definition: Named(\"bar\")\
                    \n        }";
    assert_eq!(ms[0].render(), expected);
}

#[test]
fn generate_concatenates_entries_in_order() {
    let p = platform(
        "test",
        &[64],
        vec![IntrinsicSet {
            intrinsic_prefix: String::new(),
            llvm_prefix: String::new(),
            intrinsics: vec![data("foo", "!bar", &["i32"], &["0"])],
        }],
    );
    let ms = p.monomorphise().unwrap();
    let mut expected = ms[0].render();
    expected.push_str(&ms[1].render());
    assert_eq!(p.generate().unwrap(), expected);
}

#[test]
fn generate_propagates_failures() {
    let p = platform(
        "test",
        &[24],
        vec![IntrinsicSet {
            intrinsic_prefix: String::new(),
            llvm_prefix: String::new(),
            intrinsics: vec![data("foo", "!bar", &["i32"], &[])],
        }],
    );
    assert!(matches!(p.generate(), Err(Error::InvalidWidth { width: 24 })));
}

#[test]
fn merge_replaces_platform_and_appends_sets() {
    let mut a = platform(
        "one",
        &[32],
        vec![IntrinsicSet {
            intrinsic_prefix: "a_".to_string(),
            llvm_prefix: String::new(),
            intrinsics: vec![],
        }],
    );
    let b = platform(
        "two",
        &[64],
        vec![IntrinsicSet {
            intrinsic_prefix: "b_".to_string(),
            llvm_prefix: String::new(),
            intrinsics: vec![],
        }],
    );
    a.merge(b);
    assert_eq!(a.platform_prefix(), "two");
    assert_eq!(a.intrinsicset.len(), 2);
    assert_eq!(a.intrinsicset[0].intrinsic_prefix, "a_");
    assert_eq!(a.intrinsicset[1].intrinsic_prefix, "b_");

    let c = Platform { file_stem: String::new(), platform: None, intrinsicset: vec![] };
    a.merge(c);
    assert_eq!(a.platform_prefix(), "two");
}

#[test]
fn from_types_and_compiler_args() {
    let ret = Type::Num(Number { kind: NumKind::Signed, bitwidth: 32, llvm_bitwidth: None });
    let args = [
        Type::Num(Number { kind: NumKind::Unsigned, bitwidth: 8, llvm_bitwidth: None }),
        Type::Void,
    ];
    let m = MonomorphicIntrinsic::from_types(&ret, &args);
    assert_eq!(m.compiler_ret(), "&::I32");
    assert_eq!(m.compiler_args(), "&::U8,&::VOID");
    assert_eq!(m.intrinsic_set_name, "");
    assert_eq!(m.len, 0);
}

#[test]
fn empty_llvm_pattern_keeps_prefix_only() {
    let p = platform(
        "x",
        &[64],
        vec![IntrinsicSet {
            intrinsic_prefix: String::new(),
            llvm_prefix: "llvm.".to_string(),
            intrinsics: vec![data("m", "", &["U8"], &[])],
        }],
    );
    let ms = p.monomorphise().unwrap();
    assert_eq!(ms[0].llvm_name, "llvm.");
}

#[test]
fn no_platform_means_no_widths() {
    let p = Platform {
        file_stem: String::new(),
        platform: None,
        intrinsicset: vec![IntrinsicSet {
            intrinsic_prefix: String::new(),
            llvm_prefix: String::new(),
            intrinsics: vec![data("m", "!m", &["i32"], &[])],
        }],
    };
    assert_eq!(p.platform_prefix(), "");
    assert_eq!(p.monomorphise().unwrap().len(), 0);
}

#[test]
fn type_vec_renders_name() {
    let tv = TypeVec('i', 32, 4);
    assert_eq!(tv.render(), "::i32x4");
}
