//! Translation of source-language type expressions into C type trees.

use vstd::prelude::*;
use vstd::string::*;

use crate::ast::{args_view, strs_view, Arg, ArgV, BareFnTy, BareFnTyV, FnRet, FnRetV, Mutability,
    TyExpr, TyExprV};
use crate::common::str_eq;
use crate::types::{cnamed_list_view, CPtrType, CType, CTyNamedV, CTypeNamed, CTyV};
use crate::{Error, ErrorV, Level};

verus! {

/// A user-facing rejection without a source position.
pub open spec fn err_v(msg: Seq<char>) -> ErrorV {
    ErrorV { level: Level::Error, span: None, message: msg }
}

/// An internal-contract violation without a source position.
pub open spec fn bug_v(msg: Seq<char>) -> ErrorV {
    ErrorV { level: Level::Bug, span: None, message: msg }
}

/// The message rejecting a type shape the translator does not support.
pub open spec fn msg_unhandled(printed: Seq<char>) -> Seq<char> {
    "bindgen can not handle the type `"@ + printed + "`"@
}

pub(crate) fn error_of(msg: &str) -> (r: Error)
    ensures
        r@ == err_v(msg@),
{
    Error { level: Level::Error, span: None, message: msg.to_owned() }
}

/// Joining of string parts with a separator.
pub open spec fn spec_join_sep(parts: Seq<Seq<char>>, sep: Seq<char>) -> Seq<char>
    decreases parts,
{
    if parts.len() == 0 {
        Seq::empty()
    } else if parts.len() == 1 {
        parts[0]
    } else {
        parts[0] + sep + spec_join_sep(parts.drop_first(), sep)
    }
}

pub proof fn lemma_join_sep_push(parts: Seq<Seq<char>>, sep: Seq<char>, x: Seq<char>)
    ensures
        spec_join_sep(parts.push(x), sep) == if parts.len() == 0 {
            x
        } else {
            spec_join_sep(parts, sep) + sep + x
        },
    decreases parts.len(),
{
    let p = parts.push(x);
    if parts.len() == 0 {
        assert(p[0] == x);
    } else {
        assert(p[0] == parts[0]);
        assert(p.drop_first() =~= parts.drop_first().push(x));
        lemma_join_sep_push(parts.drop_first(), sep, x);
        if parts.len() > 1 {
            assert(parts[0] + sep + (spec_join_sep(parts.drop_first(), sep) + sep + x) =~= (
            parts[0] + sep + spec_join_sep(parts.drop_first(), sep)) + sep + x);
        }
    }
}

/// The C equivalent of a type name from the special-cased first foreign
/// C-ABI-primitive module; an unrecognized name stays an opaque user type.
pub open spec fn spec_libc_ty_to_c(ty: Seq<char>) -> CTyV {
    if ty == "c_void"@ {
        CTyV::Void
    } else if ty == "c_float"@ {
        CTyV::Native("float"@)
    } else if ty == "c_double"@ {
        CTyV::Native("double"@)
    } else if ty == "c_char"@ {
        CTyV::Native("char"@)
    } else if ty == "c_schar"@ {
        CTyV::Native("signed char"@)
    } else if ty == "c_uchar"@ {
        CTyV::Native("unsigned char"@)
    } else if ty == "c_short"@ {
        CTyV::Native("short"@)
    } else if ty == "c_ushort"@ {
        CTyV::Native("unsigned short"@)
    } else if ty == "c_int"@ {
        CTyV::Native("int"@)
    } else if ty == "c_uint"@ {
        CTyV::Native("unsigned int"@)
    } else if ty == "c_long"@ {
        CTyV::Native("long"@)
    } else if ty == "c_ulong"@ {
        CTyV::Native("unsigned long"@)
    } else if ty == "c_longlong"@ {
        CTyV::Native("long long"@)
    } else if ty == "c_ulonglong"@ {
        CTyV::Native("unsigned long long"@)
    } else {
        CTyV::Mapping(ty)
    }
}

/// The C equivalent of a type name from the second foreign C-ABI-primitive
/// module; it mirrors the first one.
pub open spec fn spec_osraw_ty_to_c(ty: Seq<char>) -> CTyV {
    spec_libc_ty_to_c(ty)
}

/// The C equivalent of a plain (single-segment) type name: the fixed-width
/// and primitive table first, then the C-ABI-primitive table, then an opaque
/// user type.
pub open spec fn spec_rust_ty_to_c(ty: Seq<char>) -> CTyV {
    if ty == "()"@ {
        CTyV::Void
    } else if ty == "f32"@ {
        CTyV::Native("float"@)
    } else if ty == "f64"@ {
        CTyV::Native("double"@)
    } else if ty == "i8"@ {
        CTyV::Native("int8_t"@)
    } else if ty == "i16"@ {
        CTyV::Native("int16_t"@)
    } else if ty == "i32"@ {
        CTyV::Native("int32_t"@)
    } else if ty == "i64"@ {
        CTyV::Native("int64_t"@)
    } else if ty == "isize"@ {
        CTyV::Native("intptr_t"@)
    } else if ty == "u8"@ {
        CTyV::Native("uint8_t"@)
    } else if ty == "u16"@ {
        CTyV::Native("uint16_t"@)
    } else if ty == "u32"@ {
        CTyV::Native("uint32_t"@)
    } else if ty == "u64"@ {
        CTyV::Native("uint64_t"@)
    } else if ty == "usize"@ {
        CTyV::Native("uintptr_t"@)
    } else if ty == "bool"@ {
        CTyV::Native("bool"@)
    } else {
        spec_libc_ty_to_c(ty)
    }
}

/// The translation of a possibly module-qualified type name. Only the two
/// recognized C-ABI-primitive modules may qualify a name; an empty path is an
/// internal-contract violation.
pub open spec fn spec_path_to_c(segs: Seq<Seq<char>>) -> Result<CTyV, ErrorV> {
    if segs.len() == 0 {
        Err(bug_v("invalid type"@))
    } else if segs.len() > 1 {
        let module = spec_join_sep(segs.drop_last(), "::"@);
        if module == "libc"@ {
            Ok(spec_libc_ty_to_c(segs.last()))
        } else if module == "std::os::raw"@ {
            Ok(spec_osraw_ty_to_c(segs.last()))
        } else {
            Err(err_v("can not handle types in other modules (except `libc` and `std::os::raw`)"@))
        }
    } else {
        Ok(spec_rust_ty_to_c(segs[0]))
    }
}

/// The anonymous translation of a type expression: every shape but a bare
/// function pointer, which needs an enclosing declarator to anchor its name.
pub open spec fn spec_anon_rust_to_c(t: TyExprV) -> Result<CTyV, ErrorV>
    decreases t, 0int,
{
    match t {
        TyExprV::BareFn(bf) => Err(
            err_v("C function ptrs must have a name or function declaration associated with them"@),
        ),
        TyExprV::Array(inner) => match spec_anon_rust_to_c(*inner) {
            Ok(c) => Ok(CTyV::Ptr(Box::new(c), CPtrType::Const)),
            Err(e) => Err(e),
        },
        TyExprV::Ptr(inner, m) => match spec_anon_rust_to_c(*inner) {
            Ok(c) => Ok(
                CTyV::Ptr(
                    Box::new(c),
                    if m is Immutable {
                        CPtrType::Const
                    } else {
                        CPtrType::Mutable
                    },
                ),
            ),
            Err(e) => Err(e),
        },
        TyExprV::Path(segs) => spec_path_to_c(segs),
        TyExprV::Unit => Ok(CTyV::Void),
        TyExprV::Never => Err(err_v(msg_unhandled("!"@))),
        TyExprV::Other(printed) => Err(err_v(msg_unhandled(printed))),
    }
}

/// The translation of a function-pointer argument list, first failure wins.
pub open spec fn spec_args_to_c(inputs: Seq<ArgV>) -> Result<Seq<CTyNamedV>, ErrorV>
    decreases inputs, 0int,
{
    if inputs.len() == 0 {
        Ok(Seq::empty())
    } else {
        match spec_rust_to_c(inputs[0].ty, inputs[0].pat.text) {
            Err(e) => Err(e),
            Ok(c) => match spec_args_to_c(inputs.drop_first()) {
                Ok(rest) => Ok(seq![c] + rest),
                Err(e) => Err(e),
            },
        }
    }
}

/// The translation of a bare function-pointer type into a C function
/// declarator whose inner text is `inner` (a name, or the rest of a function
/// declaration). Bound lifetimes and a diverging return type are rejected.
pub open spec fn spec_fn_ptr_to_c(fnty: BareFnTyV, inner: Seq<char>) -> Result<CTyV, ErrorV>
    decreases fnty, 0int,
{
    if fnty.has_lifetimes {
        Err(err_v("bindgen can not handle lifetimes"@))
    } else {
        match spec_args_to_c(fnty.decl.inputs) {
            Err(e) => Err(e),
            Ok(args) => match fnty.decl.output {
                FnRetV::Default => Ok(
                    CTyV::FnDecl { inner, args, ret: Box::new(CTyV::Void) },
                ),
                FnRetV::Ty(t) => if *t is Never {
                    Err(err_v("panics across a C boundary are naughty!"@))
                } else {
                    match spec_anon_rust_to_c(*t) {
                        Ok(rt) => Ok(CTyV::FnDecl { inner, args, ret: Box::new(rt) }),
                        Err(e) => Err(e),
                    }
                },
            },
        }
    }
}

/// The translation of a type expression against an associated declarator
/// name: a bare function pointer folds the name into its declarator, every
/// other shape pairs the name with its anonymous translation.
pub open spec fn spec_rust_to_c(t: TyExprV, assoc: Seq<char>) -> Result<CTyNamedV, ErrorV>
    decreases t, 1int,
{
    match t {
        TyExprV::BareFn(bf) => match spec_fn_ptr_to_c(*bf, assoc) {
            Ok(c) => Ok(CTyNamedV { name: Seq::empty(), ty: c }),
            Err(e) => Err(e),
        },
        _ => match spec_anon_rust_to_c(t) {
            Ok(c) => Ok(CTyNamedV { name: assoc, ty: c }),
            Err(e) => Err(e),
        },
    }
}

/// Convert a type name of the first C-ABI-primitive module into a C type.
pub fn libc_ty_to_c(ty: &str) -> (r: CType)
    ensures
        r@ == spec_libc_ty_to_c(ty@),
{
    if str_eq(ty, "c_void") {
        CType::Void
    } else if str_eq(ty, "c_float") {
        CType::Native("float".to_owned())
    } else if str_eq(ty, "c_double") {
        CType::Native("double".to_owned())
    } else if str_eq(ty, "c_char") {
        CType::Native("char".to_owned())
    } else if str_eq(ty, "c_schar") {
        CType::Native("signed char".to_owned())
    } else if str_eq(ty, "c_uchar") {
        CType::Native("unsigned char".to_owned())
    } else if str_eq(ty, "c_short") {
        CType::Native("short".to_owned())
    } else if str_eq(ty, "c_ushort") {
        CType::Native("unsigned short".to_owned())
    } else if str_eq(ty, "c_int") {
        CType::Native("int".to_owned())
    } else if str_eq(ty, "c_uint") {
        CType::Native("unsigned int".to_owned())
    } else if str_eq(ty, "c_long") {
        CType::Native("long".to_owned())
    } else if str_eq(ty, "c_ulong") {
        CType::Native("unsigned long".to_owned())
    } else if str_eq(ty, "c_longlong") {
        CType::Native("long long".to_owned())
    } else if str_eq(ty, "c_ulonglong") {
        CType::Native("unsigned long long".to_owned())
    } else {
        CType::Mapping(ty.to_owned())
    }
}

/// Convert a type name of the second C-ABI-primitive module into a C type.
pub fn osraw_ty_to_c(ty: &str) -> (r: CType)
    ensures
        r@ == spec_osraw_ty_to_c(ty@),
{
    libc_ty_to_c(ty)
}

/// Convert a plain type name into a C type; an unrecognized name is trusted
/// to be a user-defined type that is declared elsewhere.
pub fn rust_ty_to_c(ty: &str) -> (r: CType)
    ensures
        r@ == spec_rust_ty_to_c(ty@),
{
    if str_eq(ty, "()") {
        CType::Void
    } else if str_eq(ty, "f32") {
        CType::Native("float".to_owned())
    } else if str_eq(ty, "f64") {
        CType::Native("double".to_owned())
    } else if str_eq(ty, "i8") {
        CType::Native("int8_t".to_owned())
    } else if str_eq(ty, "i16") {
        CType::Native("int16_t".to_owned())
    } else if str_eq(ty, "i32") {
        CType::Native("int32_t".to_owned())
    } else if str_eq(ty, "i64") {
        CType::Native("int64_t".to_owned())
    } else if str_eq(ty, "isize") {
        CType::Native("intptr_t".to_owned())
    } else if str_eq(ty, "u8") {
        CType::Native("uint8_t".to_owned())
    } else if str_eq(ty, "u16") {
        CType::Native("uint16_t".to_owned())
    } else if str_eq(ty, "u32") {
        CType::Native("uint32_t".to_owned())
    } else if str_eq(ty, "u64") {
        CType::Native("uint64_t".to_owned())
    } else if str_eq(ty, "usize") {
        CType::Native("uintptr_t".to_owned())
    } else if str_eq(ty, "bool") {
        CType::Native("bool".to_owned())
    } else {
        libc_ty_to_c(ty)
    }
}

/// Convert a (possibly module-qualified) path type into a C type.
///
/// Names behind a module are almost certainly custom types except those of
/// the two recognized C-ABI-primitive modules, which are special-cased.
pub fn path_to_c(segs: &Vec<String>) -> (r: Result<CType, Error>)
    ensures
        match r {
            Ok(c) => spec_path_to_c(strs_view(segs@)) == Ok::<_, ErrorV>(c@),
            Err(e) => spec_path_to_c(strs_view(segs@)) == Err::<CTyV, _>(e@),
        },
{
    let ghost sv = strs_view(segs@);
    if segs.len() == 0 {
        return Err(
            Error { level: Level::Bug, span: None, message: "invalid type".to_owned() },
        );
    }
    if segs.len() > 1 {
        let ghost m = sv.drop_last();
        let mut module = String::new();
        let mut i: usize = 0;
        proof {
            assert(m.take(0) =~= Seq::<Seq<char>>::empty());
        }
        while i < segs.len() - 1
            invariant
                segs.len() >= 2,
                i <= segs.len() - 1,
                sv == strs_view(segs@),
                m == sv.drop_last(),
                module@ == spec_join_sep(m.take(i as int), "::"@),
            decreases segs.len() - i,
        {
            proof {
                assert(m.take(i + 1) =~= m.take(i as int).push(m[i as int]));
                lemma_join_sep_push(m.take(i as int), "::"@, m[i as int]);
            }
            if i > 0 {
                module.append("::");
            }
            module.append(segs[i].as_str());
            i += 1;
        }
        proof {
            assert(m.take(m.len() as int) =~= m);
        }
        let last = &segs[segs.len() - 1];
        proof {
            assert(sv.last() == last@);
        }
        if str_eq(module.as_str(), "libc") {
            Ok(libc_ty_to_c(last.as_str()))
        } else if str_eq(module.as_str(), "std::os::raw") {
            Ok(osraw_ty_to_c(last.as_str()))
        } else {
            Err(error_of("can not handle types in other modules (except `libc` and `std::os::raw`)"))
        }
    } else {
        Ok(rust_ty_to_c(segs[0].as_str()))
    }
}

/// Turn a type expression into a C type, in a position with no declarator
/// name to anchor a function pointer.
pub fn anon_rust_to_c(ty: &TyExpr) -> (r: Result<CType, Error>)
    ensures
        match r {
            Ok(c) => spec_anon_rust_to_c(ty@) == Ok::<_, ErrorV>(c@),
            Err(e) => spec_anon_rust_to_c(ty@) == Err::<CTyV, _>(e@),
        },
    decreases ty, 0int,
{
    match ty {
        TyExpr::BareFn(bf) => Err(
            error_of("C function ptrs must have a name or function declaration associated with them"),
        ),
        TyExpr::Array(inner) => match anon_rust_to_c(&**inner) {
            Ok(c) => Ok(CType::Ptr(Box::new(c), CPtrType::Const)),
            Err(e) => Err(e),
        },
        TyExpr::Ptr(inner, m) => ptr_to_c(&**inner, *m),
        TyExpr::Path(segs) => path_to_c(segs),
        TyExpr::Unit => Ok(CType::Void),
        TyExpr::Never => {
            let mut message = "bindgen can not handle the type `".to_owned();
            message.append("!");
            message.append("`");
            proof {
                assert(message@ =~= msg_unhandled("!"@));
            }
            Err(Error { level: Level::Error, span: None, message })
        },
        TyExpr::Other(printed) => {
            let mut message = "bindgen can not handle the type `".to_owned();
            message.append(printed.as_str());
            message.append("`");
            proof {
                assert(message@ =~= msg_unhandled(printed@));
            }
            Err(Error { level: Level::Error, span: None, message })
        },
    }
}

/// Turn a pointer type into the matching constness of C pointer.
pub fn ptr_to_c(inner: &TyExpr, m: Mutability) -> (r: Result<CType, Error>)
    ensures
        match r {
            Ok(c) => spec_anon_rust_to_c(TyExprV::Ptr(Box::new(inner@), m)) == Ok::<_, ErrorV>(
                c@,
            ),
            Err(e) => spec_anon_rust_to_c(TyExprV::Ptr(Box::new(inner@), m)) == Err::<CTyV, _>(
                e@,
            ),
        },
    decreases inner, 1int,
{
    let new_type = anon_rust_to_c(inner);
    match new_type {
        Ok(c) => {
            let const_spec = match m {
                Mutability::Immutable => CPtrType::Const,
                Mutability::Mutable => CPtrType::Mutable,
            };
            Ok(CType::Ptr(Box::new(c), const_spec))
        },
        Err(e) => Err(e),
    }
}

/// Turn a bare function-pointer type into a C function declarator.
///
/// A source function pointer `fn(arg1: Ty1, ...) -> RetTy` becomes the C
/// declarator `RetTy (*inner)(Ty1 arg1, ...)`, where `inner` is either a
/// name or the rest of a function declaration.
pub fn fn_ptr_to_c(fn_ty: &BareFnTy, inner: &str) -> (r: Result<CType, Error>)
    ensures
        match r {
            Ok(c) => spec_fn_ptr_to_c(fn_ty@, inner@) == Ok::<_, ErrorV>(c@),
            Err(e) => spec_fn_ptr_to_c(fn_ty@, inner@) == Err::<CTyV, _>(e@),
        },
    decreases fn_ty, 0int,
{
    if fn_ty.has_lifetimes {
        return Err(error_of("bindgen can not handle lifetimes"));
    }
    let inputs = &fn_ty.decl.inputs;
    let ghost iv = args_view(inputs@);
    proof {
        crate::ast::lemma_args_view(inputs@);
        assert(iv.skip(0) =~= iv);
    }
    let mut args: Vec<CTypeNamed> = Vec::new();
    let mut i: usize = 0;
    proof {
        if let Ok(rest) = spec_args_to_c(iv.skip(0)) {
            assert(cnamed_list_view(args@) + rest =~= rest);
        }
    }
    while i < fn_ty.decl.inputs.len()
        invariant
            !fn_ty.has_lifetimes,
            i <= fn_ty.decl.inputs.len(),
            iv == args_view(fn_ty.decl.inputs@),
            iv.len() == fn_ty.decl.inputs.len(),
            forall|j: int| 0 <= j < iv.len() ==> #[trigger] iv[j] == fn_ty.decl.inputs@[j]@,
            spec_args_to_c(iv) == match spec_args_to_c(iv.skip(i as int)) {
                Ok(rest) => Ok::<_, ErrorV>(cnamed_list_view(args@) + rest),
                Err(e) => Err(e),
            },
        decreases fn_ty.decl.inputs.len() - i,
    {
        let arg = &fn_ty.decl.inputs[i];
        proof {
            assert(decreases_to!(fn_ty => arg.ty));
            assert(iv.skip(i as int)[0] == arg@);
            assert(iv.skip(i as int).drop_first() =~= iv.skip(i + 1));
        }
        let arg_type = rust_to_c(&arg.ty, arg.pat.text.as_str());
        match arg_type {
            Ok(c) => {
                let ghost prev_vec = args@;
                let ghost prev = cnamed_list_view(args@);
                let ghost cv = c@;
                args.push(c);
                proof {
                    assert(args@.drop_last() =~= prev_vec);
                    assert(cnamed_list_view(args@) == cnamed_list_view(args@.drop_last()).push(
                        args@.last()@,
                    ));
                    assert(cnamed_list_view(args@) == prev.push(cv));
                    if let Ok(rest) = spec_args_to_c(iv.skip(i + 1)) {
                        assert(prev + (seq![cv] + rest) =~= prev.push(cv) + rest);
                    }
                }
                i += 1;
            },
            Err(e) => {
                return Err(e);
            },
        }
    }
    proof {
        assert(iv.skip(iv.len() as int) =~= Seq::<ArgV>::empty());
        if let Ok(rest) = spec_args_to_c(iv.skip(iv.len() as int)) {
            assert(cnamed_list_view(args@) + rest =~= cnamed_list_view(args@));
        }
        assert(fn_ty@.decl == fn_ty.decl@);
        assert(fn_ty.decl@.output == fn_ty.decl.output@);
    }
    let output_type = &fn_ty.decl.output;
    match output_type {
        FnRet::Ty(t) if matches!(&**t, TyExpr::Never) => Err(
            error_of("panics across a C boundary are naughty!"),
        ),
        FnRet::Default => {
            let ghost argsv = cnamed_list_view(args@);
            let r_c = CType::FnDecl {
                inner: inner.to_owned(),
                args,
                return_type: Box::new(CType::Void),
            };
            proof {
                assert((CType::Void)@ == CTyV::Void);
                assert(r_c@ == CTyV::FnDecl {
                    inner: inner@,
                    args: argsv,
                    ret: Box::new(CTyV::Void),
                });
                assert(spec_fn_ptr_to_c(fn_ty@, inner@) == Ok::<_, ErrorV>(r_c@));
            }
            Ok(r_c)
        },
        FnRet::Ty(t) => {
            proof {
                assert(decreases_to!(fn_ty => **t));
            }
            match anon_rust_to_c(&**t) {
                Ok(rt) => {
                    let ghost argsv = cnamed_list_view(args@);
                    let ghost rtv = rt@;
                    let r_c = CType::FnDecl {
                        inner: inner.to_owned(),
                        args,
                        return_type: Box::new(rt),
                    };
                    proof {
                        assert(r_c@ == CTyV::FnDecl {
                            inner: inner@,
                            args: argsv,
                            ret: Box::new(rtv),
                        });
                        assert(spec_fn_ptr_to_c(fn_ty@, inner@) == Ok::<_, ErrorV>(r_c@));
                    }
                    Ok(r_c)
                },
                Err(e) => Err(e),
            }
        },
    }
}

/// Turn a type expression with an associated declarator name into a named C
/// type.
pub fn rust_to_c(ty: &TyExpr, assoc: &str) -> (r: Result<CTypeNamed, Error>)
    ensures
        match r {
            Ok(c) => spec_rust_to_c(ty@, assoc@) == Ok::<_, ErrorV>(c@),
            Err(e) => spec_rust_to_c(ty@, assoc@) == Err::<CTyNamedV, _>(e@),
        },
    decreases ty, 1int,
{
    match ty {
        // Function pointers carry the name inside their own declarator.
        TyExpr::BareFn(bf) => match fn_ptr_to_c(&**bf, assoc) {
            Ok(c) => Ok(CTypeNamed(String::new(), c)),
            Err(e) => Err(e),
        },
        // All other types just have the name associated with them.
        _ => match anon_rust_to_c(ty) {
            Ok(c) => Ok(CTypeNamed(assoc.to_owned(), c)),
            Err(e) => Err(e),
        },
    }
}

} // verus!
