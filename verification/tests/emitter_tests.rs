use bindgen_c::ast::{Abi, Arg, Attribute, AttrValue, BareFnTy, FnDecl, FnRet, Item, ItemKind,
    Pat, StructField, TyExpr, Variant, VariantData};
use bindgen_c::common::Outputs;
use bindgen_c::lang_c::LangC;
use bindgen_c::{Level, Span};

fn sp() -> Span {
    Span { lo: 0, hi: 0 }
}

fn no_mangle() -> Attribute {
    Attribute { name: "no_mangle".to_string(), value: AttrValue::Word }
}

fn repr_c() -> Attribute {
    Attribute { name: "repr".to_string(), value: AttrValue::List(vec!["C".to_string()]) }
}

fn doc(text: &str) -> Attribute {
    Attribute { name: "doc".to_string(), value: AttrValue::NameValue(text.to_string()) }
}

fn path(segs: &[&str]) -> TyExpr {
    TyExpr::Path(segs.iter().map(|s| s.to_string()).collect())
}

fn arg(name: &str, ty: TyExpr) -> Arg {
    Arg { pat: Pat { text: name.to_string(), by_value_ident: true }, ty }
}

fn field(name: &str, ty: TyExpr) -> StructField {
    StructField { name: name.to_string(), attrs: vec![], ty }
}

fn item(name: &str, attrs: Vec<Attribute>, node: ItemKind) -> Item {
    Item { name: name.to_string(), span: sp(), attrs, node }
}

fn module(name: &str) -> Vec<String> {
    vec![name.to_string()]
}

#[test]
fn a_struct_with_named_fields_renders_one_member_per_field() {
    let mut lang = LangC::new();
    let mut outputs = Outputs::new();
    let it = item(
        "Pair",
        vec![repr_c()],
        ItemKind::Struct(
            VariantData::Struct(vec![
                field("first", path(&["u8"])),
                field("second", path(&["u32"])),
                field("flag", path(&["bool"])),
            ]),
            false,
        ),
    );
    lang.parse_struct(&it, &module("geo"), &mut outputs).unwrap();
    assert_eq!(
        outputs.get("geo.h").unwrap().as_str(),
        "typedef struct Pair {\n\tuint8_t first;\n\tuint32_t second;\n\tbool flag;\n} Pair;\n\n"
    );
}

#[test]
fn a_single_unlabeled_field_becomes_an_opaque_forward_declaration() {
    let mut lang = LangC::new();
    let mut outputs = Outputs::new();
    let it = item("Handle", vec![repr_c()], ItemKind::Struct(VariantData::Tuple(1), false));
    lang.parse_struct(&it, &module("core"), &mut outputs).unwrap();
    assert_eq!(outputs.get("core.h").unwrap().as_str(), "typedef struct Handle Handle;\n\n");
}

#[test]
fn more_than_one_unlabeled_field_is_rejected() {
    let mut lang = LangC::new();
    let mut outputs = Outputs::new();
    let it = item("Bad", vec![repr_c()], ItemKind::Struct(VariantData::Tuple(2), false));
    let err = lang.parse_struct(&it, &module("core"), &mut outputs).unwrap_err();
    assert_eq!(err.message, "can not handle unit or tuple `#[repr(C)]` structs with >1 members");
    assert!(outputs.get("core.h").is_none());
    let unit = item("Zero", vec![repr_c()], ItemKind::Struct(VariantData::Unit, false));
    let err = lang.parse_struct(&unit, &module("core"), &mut outputs).unwrap_err();
    assert_eq!(err.message, "can not handle unit or tuple `#[repr(C)]` structs with >1 members");
}

#[test]
fn a_generic_struct_is_rejected() {
    let mut lang = LangC::new();
    let mut outputs = Outputs::new();
    let it = item("G", vec![repr_c()], ItemKind::Struct(VariantData::Struct(vec![]), true));
    let err = lang.parse_struct(&it, &module("core"), &mut outputs).unwrap_err();
    assert_eq!(err.message, "bindgen can not handle parameterized `#[repr(C)]` structs");
}

#[test]
fn a_struct_without_the_c_layout_marker_is_passed_over() {
    let mut lang = LangC::new();
    let mut outputs = Outputs::new();
    let it = item(
        "Plain",
        vec![],
        ItemKind::Struct(VariantData::Struct(vec![field("x", path(&["u8"]))]), false),
    );
    lang.parse_struct(&it, &module("core"), &mut outputs).unwrap();
    assert!(outputs.get("core.h").is_none());
}

#[test]
fn an_enum_renders_its_variants_in_declared_order() {
    let mut lang = LangC::new();
    let mut outputs = Outputs::new();
    let variants = vec![
        Variant { name: "Red".to_string(), attrs: vec![doc("/// stop")], is_unit: true, span: sp() },
        Variant { name: "Green".to_string(), attrs: vec![], is_unit: true, span: sp() },
    ];
    let it = item("Color", vec![repr_c()], ItemKind::Enum(variants, false));
    lang.parse_enum(&it, &module("paint"), &mut outputs).unwrap();
    assert_eq!(
        outputs.get("paint.h").unwrap().as_str(),
        "typedef enum Color {\n\t/// stop\n\tColor_Red,\n\tColor_Green,\n} Color;\n\n"
    );
}

#[test]
fn an_enum_with_payload_variants_is_rejected() {
    let mut lang = LangC::new();
    let mut outputs = Outputs::new();
    let variants = vec![Variant {
        name: "Some".to_string(),
        attrs: vec![],
        is_unit: false,
        span: sp(),
    }];
    let it = item("Opt", vec![repr_c()], ItemKind::Enum(variants, false));
    let err = lang.parse_enum(&it, &module("core"), &mut outputs).unwrap_err();
    assert_eq!(err.message, "bindgen can not handle `#[repr(C)]` enums with non-unit variants");
    assert!(outputs.get("core.h").is_none());
}

#[test]
fn a_generic_enum_is_rejected_and_an_unmarked_enum_is_passed_over() {
    let mut lang = LangC::new();
    let mut outputs = Outputs::new();
    let generic = item("G", vec![repr_c()], ItemKind::Enum(vec![], true));
    let err = lang.parse_enum(&generic, &module("core"), &mut outputs).unwrap_err();
    assert_eq!(err.message, "bindgen can not handle parameterized `#[repr(C)]` enums");
    let unmarked = item("U", vec![], ItemKind::Enum(vec![], false));
    lang.parse_enum(&unmarked, &module("core"), &mut outputs).unwrap();
    assert!(outputs.get("core.h").is_none());
}

#[test]
fn a_type_alias_becomes_a_typedef_and_a_generic_alias_is_passed_over() {
    let mut lang = LangC::new();
    let mut outputs = Outputs::new();
    let it = item("Id", vec![doc("/// An identifier.")], ItemKind::Ty(Box::new(path(&["u64"])), false));
    lang.parse_ty(&it, &module("core"), &mut outputs).unwrap();
    assert_eq!(
        outputs.get("core.h").unwrap().as_str(),
        "/// An identifier.\ntypedef uint64_t Id;\n\n"
    );
    let generic = item("Wrap", vec![], ItemKind::Ty(Box::new(path(&["u64"])), true));
    lang.parse_ty(&generic, &module("other"), &mut outputs).unwrap();
    assert!(outputs.get("other.h").is_none());
}

#[test]
fn an_alias_of_a_function_pointer_carries_its_name_into_the_declarator() {
    let mut lang = LangC::new();
    let mut outputs = Outputs::new();
    let bf = TyExpr::BareFn(Box::new(BareFnTy {
        has_lifetimes: false,
        decl: FnDecl {
            inputs: vec![arg("x", path(&["u8"]))],
            output: FnRet::Default,
        },
    }));
    let it = item("Callback", vec![], ItemKind::Ty(Box::new(bf), false));
    lang.parse_ty(&it, &module("core"), &mut outputs).unwrap();
    assert_eq!(outputs.get("core.h").unwrap().as_str(), "typedef void (*Callback)(uint8_t x);\n\n");
}

#[test]
fn an_emitter_on_the_wrong_declaration_kind_reports_a_bug() {
    let mut lang = LangC::new();
    let mut outputs = Outputs::new();
    let it = item("F", vec![no_mangle()], ItemKind::Enum(vec![], false));
    let err = lang.parse_fn(&it, &module("core"), &mut outputs).unwrap_err();
    assert!(matches!(err.level, Level::Bug));
    assert_eq!(err.message, "`parse_fn` called on wrong `Item_`");
    let it = item("T", vec![], ItemKind::Enum(vec![], false));
    let err = lang.parse_ty(&it, &module("core"), &mut outputs).unwrap_err();
    assert!(matches!(err.level, Level::Bug));
    assert_eq!(err.message, "`parse_ty` called on wrong `Item_`");
    let it = item("E", vec![repr_c()], ItemKind::Struct(VariantData::Tuple(1), false));
    let err = lang.parse_enum(&it, &module("core"), &mut outputs).unwrap_err();
    assert!(matches!(err.level, Level::Bug));
    assert_eq!(err.message, "`parse_enum` called on wrong `Item_`");
    let it = item("S", vec![repr_c()], ItemKind::Enum(vec![], false));
    let err = lang.parse_struct(&it, &module("core"), &mut outputs).unwrap_err();
    assert!(matches!(err.level, Level::Bug));
    assert_eq!(err.message, "`parse_struct` called on wrong `Item_`");
}

#[test]
fn a_function_with_no_parameters_renders_the_void_token() {
    let mut lang = LangC::new();
    let mut outputs = Outputs::new();
    let decl = FnDecl { inputs: vec![], output: FnRet::Default };
    let it = item(
        "do_it",
        vec![no_mangle()],
        ItemKind::Fn(Box::new(decl), Abi::C, false),
    );
    lang.parse_fn(&it, &module("api"), &mut outputs).unwrap();
    assert_eq!(outputs.get("api.h").unwrap().as_str(), "void do_it(void);\n\n");
}

#[test]
fn a_function_with_parameters_and_a_return_type_renders_in_full() {
    let mut lang = LangC::new();
    let mut outputs = Outputs::new();
    let decl = FnDecl {
        inputs: vec![
            arg("count", path(&["usize"])),
            arg("data", TyExpr::Ptr(Box::new(path(&["u8"])), bindgen_c::ast::Mutability::Immutable)),
        ],
        output: FnRet::Ty(Box::new(path(&["i32"]))),
    };
    let it = item(
        "sum",
        vec![doc("/// Sums bytes."), no_mangle()],
        ItemKind::Fn(Box::new(decl), Abi::C, false),
    );
    lang.parse_fn(&it, &module("api"), &mut outputs).unwrap();
    assert_eq!(
        outputs.get("api.h").unwrap().as_str(),
        "/// Sums bytes.\nint32_t sum(uintptr_t count, uint8_t const* data);\n\n"
    );
}

#[test]
fn a_function_returning_a_function_pointer_nests_its_declarator() {
    let mut lang = LangC::new();
    let mut outputs = Outputs::new();
    let inner = TyExpr::BareFn(Box::new(BareFnTy {
        has_lifetimes: false,
        decl: FnDecl {
            inputs: vec![arg("y", path(&["i32"]))],
            output: FnRet::Ty(Box::new(path(&["i32"]))),
        },
    }));
    let decl = FnDecl {
        inputs: vec![arg("x", path(&["u8"]))],
        output: FnRet::Ty(Box::new(inner)),
    };
    let it = item("pick", vec![no_mangle()], ItemKind::Fn(Box::new(decl), Abi::C, false));
    lang.parse_fn(&it, &module("api"), &mut outputs).unwrap();
    assert_eq!(outputs.get("api.h").unwrap().as_str(), "int32_t (*pick(uint8_t x))(int32_t y);\n\n");
}

#[test]
fn a_diverging_function_is_rejected() {
    let mut lang = LangC::new();
    let mut outputs = Outputs::new();
    let decl = FnDecl { inputs: vec![], output: FnRet::Ty(Box::new(TyExpr::Never)) };
    let it = item("die", vec![no_mangle()], ItemKind::Fn(Box::new(decl), Abi::C, false));
    let err = lang.parse_fn(&it, &module("api"), &mut outputs).unwrap_err();
    assert_eq!(err.message, "panics across a C boundary are naughty!");
    assert!(outputs.get("api.h").is_none());
}

#[test]
fn a_generic_function_is_rejected() {
    let mut lang = LangC::new();
    let mut outputs = Outputs::new();
    let decl = FnDecl { inputs: vec![], output: FnRet::Default };
    let it = item("g", vec![no_mangle()], ItemKind::Fn(Box::new(decl), Abi::C, true));
    let err = lang.parse_fn(&it, &module("api"), &mut outputs).unwrap_err();
    assert_eq!(err.message, "bindgen can not handle parameterized extern functions");
}

#[test]
fn unexported_functions_never_appear_and_emission_stays_idempotent() {
    let mut lang = LangC::new();
    let mut outputs = Outputs::new();
    let decl = FnDecl { inputs: vec![], output: FnRet::Default };
    let unmarked = item("f", vec![], ItemKind::Fn(Box::new(decl), Abi::C, false));
    lang.parse_fn(&unmarked, &module("api"), &mut outputs).unwrap();
    assert!(outputs.get("api.h").is_none());
    lang.parse_fn(&unmarked, &module("api"), &mut outputs).unwrap();
    assert!(outputs.get("api.h").is_none());
    let decl = FnDecl { inputs: vec![], output: FnRet::Default };
    let rust_abi = item("r", vec![no_mangle()], ItemKind::Fn(Box::new(decl), Abi::Rust, false));
    lang.parse_fn(&rust_abi, &module("api"), &mut outputs).unwrap();
    lang.parse_fn(&rust_abi, &module("api"), &mut outputs).unwrap();
    assert!(outputs.get("api.h").is_none());
}

#[test]
fn repeated_emission_of_the_same_function_appends_each_time() {
    let mut lang = LangC::new();
    let mut outputs = Outputs::new();
    let decl = FnDecl { inputs: vec![], output: FnRet::Default };
    let it = item("f", vec![no_mangle()], ItemKind::Fn(Box::new(decl), Abi::C, false));
    lang.parse_fn(&it, &module("api"), &mut outputs).unwrap();
    lang.parse_fn(&it, &module("api"), &mut outputs).unwrap();
    assert_eq!(outputs.get("api.h").unwrap().as_str(), "void f(void);\n\nvoid f(void);\n\n");
}
