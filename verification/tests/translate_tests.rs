use bindgen_c::ast::{Arg, BareFnTy, FnDecl, FnRet, Mutability, Pat, TyExpr};
use bindgen_c::common::{fn_args, is_result_arg, is_user_data_arg};
use bindgen_c::translate::{anon_rust_to_c, fn_ptr_to_c, libc_ty_to_c, osraw_ty_to_c, path_to_c,
    rust_to_c, rust_ty_to_c};
use bindgen_c::Level;

fn path(segs: &[&str]) -> TyExpr {
    TyExpr::Path(segs.iter().map(|s| s.to_string()).collect())
}

fn arg(name: &str, ty: TyExpr) -> Arg {
    Arg { pat: Pat { text: name.to_string(), by_value_ident: true }, ty }
}

#[test]
fn fixed_width_primitives_translate_to_their_native_names() {
    let cases = [
        ("i8", "int8_t"),
        ("i16", "int16_t"),
        ("i32", "int32_t"),
        ("i64", "int64_t"),
        ("isize", "intptr_t"),
        ("u8", "uint8_t"),
        ("u16", "uint16_t"),
        ("u32", "uint32_t"),
        ("u64", "uint64_t"),
        ("usize", "uintptr_t"),
        ("bool", "bool"),
        ("f32", "float"),
        ("f64", "double"),
    ];
    for (rust, c) in cases.iter() {
        assert_eq!(rust_ty_to_c(rust).render(), *c);
    }
    assert_eq!(rust_ty_to_c("()").render(), "void");
}

#[test]
fn libc_primitives_translate_to_c_names() {
    assert_eq!(libc_ty_to_c("c_void").render(), "void");
    assert_eq!(libc_ty_to_c("c_char").render(), "char");
    assert_eq!(libc_ty_to_c("c_schar").render(), "signed char");
    assert_eq!(libc_ty_to_c("c_uchar").render(), "unsigned char");
    assert_eq!(libc_ty_to_c("c_short").render(), "short");
    assert_eq!(libc_ty_to_c("c_ushort").render(), "unsigned short");
    assert_eq!(libc_ty_to_c("c_int").render(), "int");
    assert_eq!(libc_ty_to_c("c_uint").render(), "unsigned int");
    assert_eq!(libc_ty_to_c("c_long").render(), "long");
    assert_eq!(libc_ty_to_c("c_ulong").render(), "unsigned long");
    assert_eq!(libc_ty_to_c("c_longlong").render(), "long long");
    assert_eq!(libc_ty_to_c("c_ulonglong").render(), "unsigned long long");
    assert_eq!(libc_ty_to_c("c_float").render(), "float");
    assert_eq!(libc_ty_to_c("c_double").render(), "double");
    assert_eq!(osraw_ty_to_c("c_int").render(), "int");
    // An unrecognized name stays an opaque user-defined type.
    assert_eq!(libc_ty_to_c("time_t").render(), "time_t");
}

#[test]
fn qualified_paths_resolve_only_through_the_recognized_modules() {
    let ok = path_to_c(&vec!["libc".to_string(), "c_char".to_string()]).unwrap();
    assert_eq!(ok.render(), "char");
    let ok = path_to_c(&vec![
        "std".to_string(),
        "os".to_string(),
        "raw".to_string(),
        "c_int".to_string(),
    ])
    .unwrap();
    assert_eq!(ok.render(), "int");
    let err = path_to_c(&vec!["mymod".to_string(), "MyType".to_string()]).unwrap_err();
    assert_eq!(
        err.message,
        "can not handle types in other modules (except `libc` and `std::os::raw`)"
    );
    assert!(matches!(err.level, Level::Error));
    let bug = path_to_c(&Vec::new()).unwrap_err();
    assert!(matches!(bug.level, Level::Bug));
    assert_eq!(bug.message, "invalid type");
}

#[test]
fn pointers_and_arrays_decay_to_c_pointers() {
    let t = TyExpr::Ptr(Box::new(path(&["u8"])), Mutability::Immutable);
    assert_eq!(rust_to_c(&t, "p").unwrap().render(), "uint8_t const* p");
    let t = TyExpr::Ptr(Box::new(path(&["u8"])), Mutability::Mutable);
    assert_eq!(rust_to_c(&t, "p").unwrap().render(), "uint8_t* p");
    // The element count of a fixed-size array is deliberately discarded.
    let t = TyExpr::Array(Box::new(path(&["i64"])));
    assert_eq!(rust_to_c(&t, "a").unwrap().render(), "int64_t const* a");
    let t = TyExpr::Ptr(
        Box::new(TyExpr::Ptr(Box::new(path(&["c_void"])), Mutability::Mutable)),
        Mutability::Immutable,
    );
    assert_eq!(rust_to_c(&t, "p").unwrap().render(), "void* const* p");
}

#[test]
fn the_unit_type_is_void() {
    assert_eq!(anon_rust_to_c(&TyExpr::Unit).unwrap().render(), "void");
}

#[test]
fn unsupported_shapes_are_rejected_with_their_printed_form() {
    let err = anon_rust_to_c(&TyExpr::Other("String".to_string())).unwrap_err();
    assert_eq!(err.message, "bindgen can not handle the type `String`");
    let err = anon_rust_to_c(&TyExpr::Never).unwrap_err();
    assert_eq!(err.message, "bindgen can not handle the type `!`");
}

#[test]
fn a_bare_function_pointer_needs_an_anchoring_declarator() {
    let bf = TyExpr::BareFn(Box::new(BareFnTy {
        has_lifetimes: false,
        decl: FnDecl { inputs: vec![], output: FnRet::Default },
    }));
    let err = anon_rust_to_c(&bf).unwrap_err();
    assert_eq!(
        err.message,
        "C function ptrs must have a name or function declaration associated with them"
    );
}

#[test]
fn a_named_function_pointer_renders_with_its_name_inside_the_parens() {
    let bf = TyExpr::BareFn(Box::new(BareFnTy {
        has_lifetimes: false,
        decl: FnDecl {
            inputs: vec![arg("x", path(&["i32"])), arg("y", path(&["bool"]))],
            output: FnRet::Ty(Box::new(path(&["i32"]))),
        },
    }));
    let c = rust_to_c(&bf, "cb").unwrap();
    assert_eq!(c.render(), "int32_t (*cb)(int32_t x, bool y)");
}

#[test]
fn a_function_pointer_without_arguments_renders_empty_parens() {
    let bf = BareFnTy {
        has_lifetimes: false,
        decl: FnDecl { inputs: vec![], output: FnRet::Default },
    };
    let c = fn_ptr_to_c(&bf, "cb").unwrap();
    assert_eq!(c.render(), "void (*cb)()");
}

#[test]
fn bound_lifetimes_are_rejected() {
    let bf = BareFnTy {
        has_lifetimes: true,
        decl: FnDecl { inputs: vec![], output: FnRet::Default },
    };
    let err = fn_ptr_to_c(&bf, "cb").unwrap_err();
    assert_eq!(err.message, "bindgen can not handle lifetimes");
}

#[test]
fn a_diverging_function_pointer_is_rejected() {
    let bf = BareFnTy {
        has_lifetimes: false,
        decl: FnDecl { inputs: vec![], output: FnRet::Ty(Box::new(TyExpr::Never)) },
    };
    let err = fn_ptr_to_c(&bf, "cb").unwrap_err();
    assert_eq!(err.message, "panics across a C boundary are naughty!");
}

#[test]
fn fn_args_recovers_by_value_bindings() {
    let inputs = vec![arg("a", path(&["u8"])), arg("b", path(&["bool"]))];
    let pairs = fn_args(inputs, "f").unwrap();
    assert_eq!(pairs.len(), 2);
    assert_eq!(pairs[0].0, "a");
    assert_eq!(pairs[1].0, "b");
}

#[test]
fn fn_args_rejects_other_patterns() {
    let inputs = vec![Arg {
        pat: Pat { text: "&mut x".to_string(), by_value_ident: false },
        ty: path(&["u8"]),
    }];
    let err = fn_args(inputs, "f").unwrap_err();
    assert_eq!(
        err.message,
        "cheddar only supports by-value arguments:\n    incorrect argument `&mut x` in function definition `f`"
    );
}

#[test]
fn the_special_callback_arguments_are_recognized() {
    let ud = Arg {
        pat: Pat { text: "user_data".to_string(), by_value_ident: true },
        ty: TyExpr::Ptr(Box::new(path(&["c_void"])), Mutability::Mutable),
    };
    assert!(is_user_data_arg(&ud));
    assert!(!is_result_arg(&ud));
    let res = Arg {
        pat: Pat { text: "result".to_string(), by_value_ident: true },
        ty: TyExpr::Ptr(Box::new(path(&["FfiResult"])), Mutability::Immutable),
    };
    assert!(is_result_arg(&res));
    assert!(!is_user_data_arg(&res));
}
