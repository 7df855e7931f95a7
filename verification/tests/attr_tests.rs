use bindgen_c::ast::{Abi, Arg, Attribute, AttrValue, FnDecl, FnRet, Item, ItemKind, Pat,
    StructField, TyExpr, VariantData};
use bindgen_c::common::{check_no_mangle, check_repr_c, parse_attr, retrieve_docstring, AttrCheck,
    Outputs};
use bindgen_c::lang_c::LangC;
use bindgen_c::Span;

fn word(name: &str) -> Attribute {
    Attribute { name: name.to_string(), value: AttrValue::Word }
}

fn list(name: &str, items: &[&str]) -> Attribute {
    Attribute {
        name: name.to_string(),
        value: AttrValue::List(items.iter().map(|s| s.to_string()).collect()),
    }
}

fn doc(text: &str) -> Attribute {
    Attribute { name: "doc".to_string(), value: AttrValue::NameValue(text.to_string()) }
}

#[test]
fn the_stable_linkage_marker_is_a_bare_word() {
    assert!(check_no_mangle(&word("no_mangle")));
    assert!(!check_no_mangle(&word("inline")));
    assert!(!check_no_mangle(&doc("no_mangle")));
    assert!(!check_no_mangle(&list("no_mangle", &[])));
}

#[test]
fn the_c_layout_marker_is_the_bare_c_token_alone() {
    assert!(check_repr_c(&list("repr", &["C"])));
    assert!(!check_repr_c(&list("repr", &["C", "packed"])));
    assert!(!check_repr_c(&list("repr", &["packed"])));
    assert!(!check_repr_c(&list("repr", &[])));
    assert!(!check_repr_c(&word("repr")));
    assert!(!check_repr_c(&list("align", &["C"])));
}

#[test]
fn a_docstring_is_indented_and_gets_its_newline_back() {
    assert_eq!(retrieve_docstring(&doc("/// hi"), "\t").unwrap(), "\t/// hi\n");
    assert!(retrieve_docstring(&word("no_mangle"), "").is_none());
}

#[test]
fn the_attribute_scan_accumulates_docs_in_encounter_order() {
    let attrs = vec![doc("/// one"), word("no_mangle"), doc("/// two")];
    let (passed, docs) = parse_attr(&attrs, AttrCheck::NoMangle, "");
    assert!(passed);
    assert_eq!(docs, "/// one\n/// two\n");
    let (passed, docs) = parse_attr(&attrs, AttrCheck::ReprC, "");
    assert!(!passed);
    assert_eq!(docs, "/// one\n/// two\n");
}

#[test]
fn a_qualified_layout_marker_does_not_export_a_record() {
    let mut lang = LangC::new();
    let mut outputs = Outputs::new();
    let it = Item {
        name: "Packed".to_string(),
        span: Span { lo: 0, hi: 0 },
        attrs: vec![list("repr", &["C", "packed"])],
        node: ItemKind::Struct(
            VariantData::Struct(vec![StructField {
                name: "x".to_string(),
                attrs: vec![],
                ty: TyExpr::Path(vec!["u8".to_string()]),
            }]),
            false,
        ),
    };
    lang.parse_struct(&it, &vec!["core".to_string()], &mut outputs).unwrap();
    assert!(outputs.get("core.h").is_none());
}

#[test]
fn field_docs_are_indented_one_level() {
    let mut lang = LangC::new();
    let mut outputs = Outputs::new();
    let it = Item {
        name: "S".to_string(),
        span: Span { lo: 0, hi: 0 },
        attrs: vec![list("repr", &["C"]), doc("/// A thing.")],
        node: ItemKind::Struct(
            VariantData::Struct(vec![StructField {
                name: "x".to_string(),
                attrs: vec![doc("/// A member.")],
                ty: TyExpr::Path(vec!["u8".to_string()]),
            }]),
            false,
        ),
    };
    lang.parse_struct(&it, &vec!["core".to_string()], &mut outputs).unwrap();
    assert_eq!(
        outputs.get("core.h").unwrap().as_str(),
        "/// A thing.\ntypedef struct S {\n\t/// A member.\n\tuint8_t x;\n} S;\n\n"
    );
}

#[test]
fn transform_native_fn_renders_a_signature_directly() {
    let mut lang = LangC::new();
    let mut outputs = Outputs::new();
    let decl = FnDecl {
        inputs: vec![Arg {
            pat: Pat { text: "n".to_string(), by_value_ident: true },
            ty: TyExpr::Path(vec!["u32".to_string()]),
        }],
        output: FnRet::Ty(Box::new(TyExpr::Path(vec!["bool".to_string()]))),
    };
    lang.transform_native_fn(&decl, "/// Checks n.\n", "check", &vec!["api".to_string()], &mut outputs)
        .unwrap();
    assert_eq!(
        outputs.get("api.h").unwrap().as_str(),
        "/// Checks n.\nbool check(uint32_t n);\n\n"
    );
}

#[test]
fn the_default_backend_matches_a_fresh_one() {
    let mut a = LangC::default();
    let mut b = LangC::new();
    let mut oa = Outputs::new();
    let mut ob = Outputs::new();
    let it = Item {
        name: "f".to_string(),
        span: Span { lo: 0, hi: 0 },
        attrs: vec![word("no_mangle")],
        node: ItemKind::Fn(
            Box::new(FnDecl { inputs: vec![], output: FnRet::Default }),
            Abi::Cdecl,
            false,
        ),
    };
    a.parse_fn(&it, &vec!["m".to_string()], &mut oa).unwrap();
    b.parse_fn(&it, &vec!["m".to_string()], &mut ob).unwrap();
    a.finalise_output(&mut oa).unwrap();
    b.finalise_output(&mut ob).unwrap();
    assert_eq!(oa.get("backend.h").unwrap(), ob.get("backend.h").unwrap());
    assert_eq!(oa.get("m.h").unwrap(), ob.get("m.h").unwrap());
}
