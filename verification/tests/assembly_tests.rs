use bindgen_c::ast::{Abi, Attribute, AttrValue, FnDecl, FnRet, Item, ItemKind, StructField,
    TyExpr, VariantData};
use bindgen_c::common::Outputs;
use bindgen_c::lang_c::{header_name, sanitise_id, wrap_extern, wrap_guard, LangC};
use bindgen_c::Span;

fn sp() -> Span {
    Span { lo: 0, hi: 0 }
}

fn no_mangle() -> Attribute {
    Attribute { name: "no_mangle".to_string(), value: AttrValue::Word }
}

fn repr_c() -> Attribute {
    Attribute { name: "repr".to_string(), value: AttrValue::List(vec!["C".to_string()]) }
}

fn path(segs: &[&str]) -> TyExpr {
    TyExpr::Path(segs.iter().map(|s| s.to_string()).collect())
}

fn field(name: &str, ty: TyExpr) -> StructField {
    StructField { name: name.to_string(), attrs: vec![], ty }
}

fn struct_item(name: &str, fields: Vec<StructField>) -> Item {
    Item {
        name: name.to_string(),
        span: sp(),
        attrs: vec![repr_c()],
        node: ItemKind::Struct(VariantData::Struct(fields), false),
    }
}

fn fn_item(name: &str) -> Item {
    Item {
        name: name.to_string(),
        span: sp(),
        attrs: vec![no_mangle()],
        node: ItemKind::Fn(
            Box::new(FnDecl { inputs: vec![], output: FnRet::Default }),
            Abi::C,
            false,
        ),
    }
}

fn module(name: &str) -> Vec<String> {
    vec![name.to_string()]
}

#[test]
fn guard_sanitisation_strips_everything_outside_the_identifier_set() {
    assert_eq!(sanitise_id("foo/bar.h"), "foobarh");
    assert_eq!(sanitise_id("a-b c_9!"), "abc_9");
    assert_eq!(sanitise_id("Already_OK_123"), "Already_OK_123");
    assert_eq!(sanitise_id("///"), "");
    // Realistic header paths keep distinct guards.
    assert_ne!(sanitise_id("util/net.h"), sanitise_id("util/io.h"));
}

#[test]
fn guard_and_linkage_wrappers_have_the_documented_shape() {
    assert_eq!(
        wrap_extern("X"),
        "\n#ifdef __cplusplus\nextern \"C\" {\n#endif\n\nX\n\n#ifdef __cplusplus\n}\n#endif\n"
    );
    assert_eq!(
        wrap_guard("X", "a.h"),
        "\n#ifndef bindgen_ah\n#define bindgen_ah\n\nX\n\n#endif\n"
    );
}

#[test]
fn module_paths_route_to_header_paths() {
    assert_eq!(header_name(&module("util"), "mylib").unwrap(), "util.h");
    assert_eq!(
        header_name(&vec!["util".to_string(), "sub".to_string()], "mylib").unwrap(),
        "util/sub.h"
    );
    // The reserved root module maps into a directory of the library's name.
    assert_eq!(header_name(&module("ffi"), "mylib").unwrap(), "mylib/mylib.h");
    assert_eq!(
        header_name(&vec!["ffi".to_string(), "net".to_string()], "mylib").unwrap(),
        "mylib/net.h"
    );
}

#[test]
fn a_finalised_header_is_wrapped_with_includes_and_guards() {
    let mut lang = LangC::new();
    let mut outputs = Outputs::new();
    lang.parse_fn(&fn_item("f"), &module("api"), &mut outputs).unwrap();
    lang.finalise_output(&mut outputs).unwrap();
    let expected = format!(
        "{}{}{}{}{}",
        "\n#ifndef bindgen_apih\n#define bindgen_apih\n\n",
        "\n#ifdef __cplusplus\nextern \"C\" {\n#endif\n\n",
        "#include <stdint.h>\n#include <stdbool.h>\n\nvoid f(void);\n\n",
        "\n\n#ifdef __cplusplus\n}\n#endif\n",
        "\n\n#endif\n",
    );
    assert_eq!(outputs.get("api.h").unwrap().as_str(), expected.as_str());
    let aggregate = format!(
        "{}{}{}",
        "\n#ifndef bindgen_backendh\n#define bindgen_backendh\n\n",
        "#include \"api.h\"\n",
        "\n\n#endif\n",
    );
    // The aggregate header is guarded by `<lib_name>_root`, not by its path.
    assert_ne!(outputs.get("backend.h").unwrap().as_str(), aggregate.as_str());
    let aggregate = format!(
        "{}{}{}",
        "\n#ifndef bindgen_backend_root\n#define bindgen_backend_root\n\n",
        "#include \"api.h\"\n",
        "\n\n#endif\n",
    );
    assert_eq!(outputs.get("backend.h").unwrap().as_str(), aggregate.as_str());
}

#[test]
fn dependencies_order_the_aggregate_includes() {
    let mut lang = LangC::new();
    let mut outputs = Outputs::new();
    // alpha's struct uses a type that beta declares, so beta.h must come
    // first even though alphabetical order would also put alpha.h first.
    lang.parse_struct(&struct_item("B", vec![field("x", path(&["u8"]))]), &module("beta"), &mut outputs)
        .unwrap();
    lang.parse_struct(&struct_item("A", vec![field("b", path(&["B"]))]), &module("alpha"), &mut outputs)
        .unwrap();
    lang.finalise_output(&mut outputs).unwrap();
    let aggregate = outputs.get("backend.h").unwrap();
    let beta = aggregate.find("#include \"beta.h\"").unwrap();
    let alpha = aggregate.find("#include \"alpha.h\"").unwrap();
    assert!(beta < alpha);
}

#[test]
fn a_dependency_cycle_aborts_the_assembly_with_no_output_mapping() {
    let mut lang = LangC::new();
    let mut outputs = Outputs::new();
    lang.parse_struct(&struct_item("A", vec![field("b", path(&["B"]))]), &module("alpha"), &mut outputs)
        .unwrap();
    lang.parse_struct(&struct_item("B", vec![field("a", path(&["A"]))]), &module("beta"), &mut outputs)
        .unwrap();
    let err = lang.finalise_output(&mut outputs).unwrap_err();
    assert_eq!(err.message, "dependency cycle between generated headers");
    // Nothing was wrapped and no aggregate header was produced.
    assert!(outputs.get("backend.h").is_none());
    assert_eq!(
        outputs.get("alpha.h").unwrap().as_str(),
        "typedef struct A {\n\tB b;\n} A;\n\n"
    );
}

#[test]
fn a_self_referential_struct_is_no_cycle_between_headers() {
    let mut lang = LangC::new();
    let mut outputs = Outputs::new();
    // A list node pointing at its own type depends only on its own header;
    // self-edges are dropped.
    let node = struct_item(
        "Node",
        vec![field("next", TyExpr::Ptr(Box::new(path(&["Node"])), bindgen_c::ast::Mutability::Mutable))],
    );
    lang.parse_struct(&node, &module("list"), &mut outputs).unwrap();
    lang.finalise_output(&mut outputs).unwrap();
    assert!(outputs.get("backend.h").is_some());
}

#[test]
fn a_typedef_that_uses_a_foreign_type_orders_the_includes_too() {
    let mut lang = LangC::new();
    let mut outputs = Outputs::new();
    lang.parse_struct(&struct_item("B", vec![field("x", path(&["u8"]))]), &module("zeta"), &mut outputs)
        .unwrap();
    let alias = Item {
        name: "AliasOfB".to_string(),
        span: sp(),
        attrs: vec![],
        node: ItemKind::Ty(Box::new(path(&["B"])), false),
    };
    lang.parse_ty(&alias, &module("aka"), &mut outputs).unwrap();
    lang.finalise_output(&mut outputs).unwrap();
    let aggregate = outputs.get("backend.h").unwrap();
    let zeta = aggregate.find("#include \"zeta.h\"").unwrap();
    let aka = aggregate.find("#include \"aka.h\"").unwrap();
    assert!(zeta < aka);
}

#[test]
fn an_exported_enum_is_a_resolvable_dependency_target() {
    let mut lang = LangC::new();
    let mut outputs = Outputs::new();
    let color = Item {
        name: "Color".to_string(),
        span: sp(),
        attrs: vec![repr_c()],
        node: ItemKind::Enum(
            vec![bindgen_c::ast::Variant {
                name: "Red".to_string(),
                attrs: vec![],
                is_unit: true,
                span: sp(),
            }],
            false,
        ),
    };
    lang.parse_enum(&color, &module("zpaint"), &mut outputs).unwrap();
    lang.parse_struct(
        &struct_item("Brush", vec![field("color", path(&["Color"]))]),
        &module("brush"),
        &mut outputs,
    )
    .unwrap();
    lang.finalise_output(&mut outputs).unwrap();
    let aggregate = outputs.get("backend.h").unwrap();
    let paint = aggregate.find("#include \"zpaint.h\"").unwrap();
    let brush = aggregate.find("#include \"brush.h\"").unwrap();
    assert!(paint < brush);
}

fn run_pipeline() -> (Option<String>, Option<String>, Option<String>) {
    let mut lang = LangC::new();
    let mut outputs = Outputs::new();
    lang.parse_struct(&struct_item("B", vec![field("x", path(&["u8"]))]), &module("beta"), &mut outputs)
        .unwrap();
    lang.parse_struct(&struct_item("A", vec![field("b", path(&["B"]))]), &module("alpha"), &mut outputs)
        .unwrap();
    lang.parse_fn(&fn_item("go"), &module("alpha"), &mut outputs).unwrap();
    lang.finalise_output(&mut outputs).unwrap();
    (
        outputs.get("alpha.h").cloned(),
        outputs.get("beta.h").cloned(),
        outputs.get("backend.h").cloned(),
    )
}

#[test]
fn rerunning_the_pipeline_reproduces_byte_identical_output() {
    let first = run_pipeline();
    let second = run_pipeline();
    assert!(first.0.is_some());
    assert!(first.1.is_some());
    assert!(first.2.is_some());
    assert_eq!(first, second);
}

#[test]
fn the_library_name_and_custom_code_shape_the_aggregate_header() {
    let mut lang = LangC::new();
    lang.set_lib_name("mylib");
    lang.add_custom_code("typedef struct Opaque Opaque;\n");
    let mut outputs = Outputs::new();
    lang.parse_fn(&fn_item("f"), &module("ffi"), &mut outputs).unwrap();
    assert!(outputs.get("mylib/mylib.h").is_some());
    lang.finalise_output(&mut outputs).unwrap();
    let aggregate = format!(
        "{}{}{}{}",
        "\n#ifndef bindgen_mylib_root\n#define bindgen_mylib_root\n\n",
        "typedef struct Opaque Opaque;\n\n",
        "#include \"mylib/mylib.h\"\n",
        "\n\n#endif\n",
    );
    assert_eq!(outputs.get("mylib.h").unwrap().as_str(), aggregate.as_str());
}
