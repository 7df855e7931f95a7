//! The C backend: declaration emitters, header routing and the final
//! assembly of guarded header files.

use vstd::prelude::*;
use vstd::string::*;

use crate::ast::{args_view, attrs_view, strs_view, Abi, ArgV, FnDecl, FnDeclV, FnRet, FnRetV,
    Item, ItemKind, ItemKindV, ItemV, StructFieldV, TyExpr, VariantData, VariantDataV, VariantV};
use crate::common::{find_key, lemma_find_key, lex_le, parse_attr, spec_append_entry,
    spec_attr_check, spec_docs, spec_get_entry, spec_set_entry, str_eq, str_le, AttrCheck,
    Outputs};
use crate::graph::{graph_add_edge, graph_add_node, graph_new, graph_toposort, graph_edge_seq,
    graph_node_count, has_cycle, is_topo_order, toposort_of};
use crate::translate::{error_of, rust_to_c, spec_args_to_c, spec_join_sep, spec_rust_to_c,
    lemma_join_sep_push};
use crate::types::{cnamed_list_view, render_named_list, deps_named_list, spec_deps,
    spec_deps_args, spec_render_args, spec_render_named, CType, CTypeNamed, CTyNamedV};
use crate::{Error, ErrorV, Level, Span};

verus! {

/// A character an include-guard identifier may hold.
pub open spec fn is_guard_char(c: char) -> bool {
    ('0' as u32 <= c as u32 && c as u32 <= '9' as u32) || ('A' as u32 <= c as u32 && c as u32
        <= 'Z' as u32) || ('a' as u32 <= c as u32 && c as u32 <= 'z' as u32) || c == '_'
}

/// The identifier with every character outside `[A-Za-z0-9_]` removed.
pub open spec fn spec_sanitise(s: Seq<char>) -> Seq<char> {
    s.filter(|c: char| is_guard_char(c))
}

/// Remove illegal characters from the identifier.
///
/// Include-guard macro names must be valid C identifiers. The identifier is
/// always concatenated onto a guard prefix, so it may start with a digit.
pub fn sanitise_id(id: &str) -> (r: String)
    ensures
        r@ == spec_sanitise(id@),
{
    let len = id.unicode_len();
    let mut out = String::new();
    let mut i: usize = 0;
    proof {
        assert(id@.take(0) =~= Seq::<char>::empty());
        reveal(Seq::filter);
    }
    while i < len
        invariant
            len == id@.len(),
            i <= len,
            out@ == spec_sanitise(id@.take(i as int)),
        decreases len - i,
    {
        let c = id.get_char(i);
        proof {
            reveal(Seq::filter);
            assert(id@.take(i + 1).drop_last() =~= id@.take(i as int));
            assert(id@.take(i + 1).last() == c);
        }
        let u = c as u32;
        if (48 <= u && u <= 57) || (65 <= u && u <= 90) || (97 <= u && u <= 122) || c == '_' {
            out.push(c);
        }
        i += 1;
    }
    proof {
        assert(id@.take(len as int) =~= id@);
    }
    out
}

/// The text of a body wrapped in the conditional `extern "C"` linkage guard.
pub open spec fn spec_wrap_extern(code: Seq<char>) -> Seq<char> {
    "\n#ifdef __cplusplus\nextern \"C\" {\n#endif\n\n"@ + code
        + "\n\n#ifdef __cplusplus\n}\n#endif\n"@
}

/// Wrap a block of code with the conditional `extern "C"` linkage guard.
pub fn wrap_extern(code: &str) -> (r: String)
    ensures
        r@ == spec_wrap_extern(code@),
{
    let mut s = "\n#ifdef __cplusplus\nextern \"C\" {\n#endif\n\n".to_owned();
    s.append(code);
    s.append("\n\n#ifdef __cplusplus\n}\n#endif\n");
    s
}

/// The text of a body wrapped in an include guard keyed by the sanitised
/// identifier.
pub open spec fn spec_wrap_guard(code: Seq<char>, id: Seq<char>) -> Seq<char> {
    "\n#ifndef bindgen_"@ + spec_sanitise(id) + "\n#define bindgen_"@ + spec_sanitise(id)
        + "\n\n"@ + code + "\n\n#endif\n"@
}

/// Wrap a block of code with an include guard.
pub fn wrap_guard(code: &str, id: &str) -> (r: String)
    ensures
        r@ == spec_wrap_guard(code@, id@),
{
    let clean = sanitise_id(id);
    let mut s = "\n#ifndef bindgen_".to_owned();
    s.append(clean.as_str());
    s.append("\n#define bindgen_");
    s.append(clean.as_str());
    s.append("\n\n");
    s.append(code);
    s.append("\n\n#endif\n");
    s
}

/// The header path a module maps to: segments joined with the path
/// separator, `.h` appended; the reserved root-module name becomes the
/// library's name, and the library's root module gets a directory of its
/// own so that it cannot collide with the aggregate header.
pub open spec fn spec_header_name(module: Seq<Seq<char>>, lib: Seq<char>) -> Seq<char>
    recommends
        module.len() > 0,
{
    let m = if module[0] == "ffi"@ {
        if module.len() == 1 {
            seq![lib, lib]
        } else {
            module.update(0, lib)
        }
    } else {
        module
    };
    spec_join_sep(m, "/"@) + ".h"@
}

/// Transform a module path into a header path.
pub fn header_name(module: &Vec<String>, lib_name: &str) -> (r: Result<String, Error>)
    requires
        module@.len() > 0,
    ensures
        r matches Ok(h) && h@ == spec_header_name(strs_view(module@), lib_name@),
{
    let ghost mv = strs_view(module@);
    let mut s = String::new();
    if str_eq(module[0].as_str(), "ffi") {
        s.append(lib_name);
        if module.len() == 1 {
            s.append("/");
            s.append(lib_name);
            proof {
                let m = seq![lib_name@, lib_name@];
                assert(m.drop_first() =~= seq![lib_name@]);
                assert(spec_join_sep(seq![lib_name@], "/"@) == lib_name@);
                assert(spec_join_sep(m, "/"@) == lib_name@ + "/"@ + lib_name@);
                assert(s@ =~= spec_join_sep(m, "/"@));
            }
        } else {
            let ghost m = mv.update(0, lib_name@);
            proof {
                assert(m.take(1) =~= seq![lib_name@]);
                assert(s@ == spec_join_sep(m.take(1), "/"@));
            }
            let mut i: usize = 1;
            while i < module.len()
                invariant
                    1 <= i <= module.len(),
                    mv == strs_view(module@),
                    mv.len() == module@.len(),
                    m == mv.update(0, lib_name@),
                    s@ == spec_join_sep(m.take(i as int), "/"@),
                decreases module.len() - i,
            {
                proof {
                    assert(m.take(i + 1) =~= m.take(i as int).push(m[i as int]));
                    lemma_join_sep_push(m.take(i as int), "/"@, m[i as int]);
                }
                s.append("/");
                s.append(module[i].as_str());
                i += 1;
            }
            proof {
                assert(m.take(m.len() as int) =~= m);
            }
        }
    } else {
        proof {
            assert(mv.take(0) =~= Seq::<Seq<char>>::empty());
        }
        let mut i: usize = 0;
        while i < module.len()
            invariant
                i <= module.len(),
                mv == strs_view(module@),
                mv.len() == module@.len(),
                mv[0] != "ffi"@,
                s@ == spec_join_sep(mv.take(i as int), "/"@),
            decreases module.len() - i,
        {
            proof {
                assert(mv.take(i + 1) =~= mv.take(i as int).push(mv[i as int]));
                lemma_join_sep_push(mv.take(i as int), "/"@, mv[i as int]);
            }
            if i > 0 {
                s.append("/");
            }
            s.append(module[i].as_str());
            i += 1;
        }
        proof {
            assert(mv.take(mv.len() as int) =~= mv);
        }
    }
    s.append(".h");
    Ok(s)
}

/// The dependency table after recording that `header` uses the types named
/// in `vs`, appended to what the header already uses.
pub open spec fn spec_deps_add(
    s: Seq<(Seq<char>, Seq<Seq<char>>)>,
    k: Seq<char>,
    vs: Seq<Seq<char>>,
) -> Seq<(Seq<char>, Seq<Seq<char>>)> {
    let i = find_key(s, k);
    if i == -1 {
        s.push((k, vs))
    } else {
        s.update(i, (k, s[i].1 + vs))
    }
}

/// The C target language: per-run configuration, the table of exported type
/// names and their home headers, and the table of type names each header
/// uses.
pub struct LangC {
    lib_name: String,
    /// Exported type name → home header; the ordered text map of the output
    /// store doubles as this table.
    decls: Outputs,
    /// Header path → type names its declarations use, in encounter order.
    deps: Vec<(String, Vec<String>)>,
    custom_code: String,
}

/// Mathematical image of a [`LangC`].
pub struct LangCV {
    pub lib_name: Seq<char>,
    pub decls: Seq<(Seq<char>, Seq<char>)>,
    pub deps: Seq<(Seq<char>, Seq<Seq<char>>)>,
    pub custom_code: Seq<char>,
}

impl View for LangC {
    type V = LangCV;

    closed spec fn view(&self) -> LangCV {
        LangCV {
            lib_name: self.lib_name@,
            decls: self.decls@,
            deps: Seq::new(self.deps@.len(), |i: int| (self.deps@[i].0@, strs_view(self.deps@[i].1@))),
            custom_code: self.custom_code@,
        }
    }
}

impl LangC {
    /// A C backend with the default library name and no custom code.
    pub fn new() -> (r: Self)
        ensures
            r@ == (LangCV {
                lib_name: "backend"@,
                decls: Seq::<(Seq<char>, Seq<char>)>::empty(),
                deps: Seq::<(Seq<char>, Seq<Seq<char>>)>::empty(),
                custom_code: Seq::<char>::empty(),
            }),
    {
        let r = LangC {
            lib_name: "backend".to_owned(),
            decls: Outputs::new(),
            deps: Vec::new(),
            custom_code: String::new(),
        };
        proof {
            assert(r@.deps =~= Seq::<(Seq<char>, Seq<Seq<char>>)>::empty());
        }
        r
    }

    /// Set the name of the native library.
    pub fn set_lib_name(&mut self, name: &str)
        ensures
            final(self)@ == (LangCV { lib_name: name@, ..old(self)@ }),
    {
        self.lib_name = name.to_owned();
    }

    /// Add manual C code to the top of the aggregate header — useful for
    /// typedefs, like opaque pointers, the translator cannot express.
    pub fn add_custom_code(&mut self, code: &str)
        ensures
            final(self)@ == (LangCV {
                custom_code: old(self)@.custom_code + code@,
                ..old(self)@
            }),
    {
        self.custom_code.append(code);
    }

    fn deps_position(&self, key: &str) -> (r: Option<usize>)
        ensures
            match r {
                Some(i) => find_key(self@.deps, key@) == i && i < self@.deps.len(),
                None => find_key(self@.deps, key@) == -1,
            },
    {
        let mut i: usize = 0;
        while i < self.deps.len()
            invariant
                i <= self@.deps.len(),
                self@.deps.len() == self.deps@.len(),
                forall|j: int| 0 <= j < i ==> (#[trigger] self@.deps[j]).0 != key@,
            decreases self.deps@.len() - i,
        {
            if str_eq(self.deps[i].0.as_str(), key) {
                proof {
                    lemma_find_key(self@.deps, key@);
                    let f = find_key(self@.deps, key@);
                    assert(self@.deps[i as int].0 == key@);
                    if f == -1 {
                        assert(self@.deps[i as int].0 != key@);
                    } else if f < i {
                        assert(self@.deps[f].0 != key@);
                        assert(self@.deps[f].0 == key@);
                    } else if f > i {
                        assert(self@.deps[i as int].0 != key@);
                    }
                }
                return Some(i);
            }
            i += 1;
        }
        proof {
            lemma_find_key(self@.deps, key@);
            if find_key(self@.deps, key@) != -1 {
                assert(self@.deps[find_key(self@.deps, key@)].0 != key@);
                assert(self@.deps[find_key(self@.deps, key@)].0 == key@);
            }
        }
        None
    }

    /// Record that `header` uses the given type names.
    fn record_deps(&mut self, header: &str, mut names: Vec<String>)
        ensures
            final(self)@ == (LangCV {
                deps: spec_deps_add(old(self)@.deps, header@, strs_view(names@)),
                ..old(self)@
            }),
    {
        let ghost prev = self@.deps;
        let ghost nv = strs_view(names@);
        match self.deps_position(header) {
            Some(i) => {
                proof {
                    lemma_find_key(prev, header@);
                }
                let mut pair = self.deps.remove(i);
                pair.1.append(&mut names);
                self.deps.insert(i, pair);
                proof {
                    assert(strs_view(self.deps@[i as int].1@) =~= prev[i as int].1 + nv);
                    assert(self@.deps =~= prev.update(i as int, (header@, prev[i as int].1 + nv)));
                }
            },
            None => {
                self.deps.push((header.to_owned(), names));
                proof {
                    assert(self@.deps =~= prev.push((header@, nv)));
                }
            },
        }
    }

    /// Record the user-defined type names `cty` refers to as dependencies of
    /// the module's header.
    pub fn add_dependencies(&mut self, module: &Vec<String>, cty: &CType) -> (r: Result<
        (),
        Error,
    >)
        requires
            module@.len() > 0,
        ensures
            r is Ok,
            final(self)@ == (if spec_deps(cty@).len() == 0 {
                old(self)@
            } else {
                LangCV {
                    deps: spec_deps_add(
                        old(self)@.deps,
                        spec_header_name(strs_view(module@), old(self)@.lib_name),
                        spec_deps(cty@),
                    ),
                    ..old(self)@
                }
            }),
    {
        let deps = cty.dependencies();
        if deps.len() != 0 {
            let header = match header_name(module, self.lib_name.as_str()) {
                Ok(h) => h,
                Err(e) => {
                    return Err(e);
                },
            };
            self.record_deps(header.as_str(), deps);
        }
        Ok(())
    }

    /// Append rendered text to the module's header.
    pub fn append_to_header(
        &mut self,
        buffer: String,
        module: &Vec<String>,
        outputs: &mut Outputs,
    ) -> (r: Result<(), Error>)
        requires
            module@.len() > 0,
        ensures
            r is Ok,
            *final(self) == *old(self),
            final(outputs)@ == spec_append_entry(
                old(outputs)@,
                spec_header_name(strs_view(module@), old(self)@.lib_name),
                buffer@,
            ),
    {
        let header = match header_name(module, self.lib_name.as_str()) {
            Ok(h) => h,
            Err(e) => {
                return Err(e);
            },
        };
        outputs.append(header.as_str(), buffer.as_str());
        Ok(())
    }
}

/// A user-facing rejection pointing at a declaration or variant.
pub open spec fn err_at(span: Span, msg: Seq<char>) -> ErrorV {
    ErrorV { level: Level::Error, span: Some(span), message: msg }
}

/// An internal-contract violation pointing at a declaration.
pub open spec fn bug_at(span: Span, msg: Seq<char>) -> ErrorV {
    ErrorV { level: Level::Bug, span: Some(span), message: msg }
}

fn error_at(span: Span, msg: &str) -> (r: Error)
    ensures
        r@ == err_at(span, msg@),
{
    Error { level: Level::Error, span: Some(span), message: msg.to_owned() }
}

fn bug_error_at(span: Span, msg: &str) -> (r: Error)
    ensures
        r@ == bug_at(span, msg@),
{
    Error { level: Level::Bug, span: Some(span), message: msg.to_owned() }
}

/// What an emitter does with one declaration: pass it over silently, append
/// text to a header (registering its name and the type names it uses), or
/// reject it.
pub enum EmitOutcome {
    Skip,
    Emit { header: Seq<char>, text: Seq<char>, decl: Option<Seq<char>>, deps: Seq<Seq<char>> },
    Fail(ErrorV),
}

/// The backend state and output store after an emitter outcome: a skip and a
/// rejection leave both untouched.
pub open spec fn spec_apply_emit(
    s: LangCV,
    o: Seq<(Seq<char>, Seq<char>)>,
    outcome: EmitOutcome,
) -> (LangCV, Seq<(Seq<char>, Seq<char>)>) {
    match outcome {
        EmitOutcome::Skip => (s, o),
        EmitOutcome::Fail(e) => (s, o),
        EmitOutcome::Emit { header, text, decl, deps } => (
            LangCV {
                decls: match decl {
                    Some(n) => spec_set_entry(s.decls, n, header),
                    None => s.decls,
                },
                deps: if deps.len() == 0 {
                    s.deps
                } else {
                    spec_deps_add(s.deps, header, deps)
                },
                ..s
            },
            spec_append_entry(o, header, text),
        ),
    }
}

/// The outcome of the type-alias emitter: a generic alias is skipped, an
/// untranslatable underlying type rejects the run, anything else becomes a
/// `typedef` with the alias name as declarator.
pub open spec fn spec_parse_ty(item: ItemV, lib: Seq<char>, module: Seq<Seq<char>>) -> EmitOutcome {
    let docs = spec_docs(item.attrs, ""@);
    match item.node {
        ItemKindV::Ty(ty, generic) => if generic {
            EmitOutcome::Skip
        } else {
            match spec_rust_to_c(*ty, item.name) {
                Err(e) => EmitOutcome::Fail(e),
                Ok(c) => EmitOutcome::Emit {
                    header: spec_header_name(module, lib),
                    text: docs + "typedef "@ + spec_render_named(c) + ";\n\n"@,
                    decl: Some(item.name),
                    deps: spec_deps(c.ty),
                },
            }
        },
        _ => EmitOutcome::Fail(bug_at(item.span, "`parse_ty` called on wrong `Item_`"@)),
    }
}

/// The rendered variant list of a C enum, each variant prefixed with the
/// enum's name; the first variant that carries payload rejects the run.
pub open spec fn spec_enum_variants(vars: Seq<VariantV>, name: Seq<char>) -> Result<
    Seq<char>,
    ErrorV,
>
    decreases vars.len(),
{
    if vars.len() == 0 {
        Ok(Seq::empty())
    } else {
        let v = vars[0];
        if !v.is_unit {
            Err(err_at(v.span, "bindgen can not handle `#[repr(C)]` enums with non-unit variants"@))
        } else {
            match spec_enum_variants(vars.drop_first(), name) {
                Ok(b) => Ok(
                    spec_docs(v.attrs, "\t"@) + "\t"@ + name + "_"@ + v.name + ",\n"@ + b,
                ),
                Err(e) => Err(e),
            }
        }
    }
}

/// The outcome of the enum emitter: without the C-layout marker the enum is
/// skipped; a generic enum or one with non-unit variants rejects the run;
/// variant order carries over, since it fixes the C discriminant values.
pub open spec fn spec_parse_enum(item: ItemV, lib: Seq<char>, module: Seq<Seq<char>>) -> EmitOutcome {
    let repr_c = spec_attr_check(item.attrs, AttrCheck::ReprC);
    let docs = spec_docs(item.attrs, ""@);
    if !repr_c {
        EmitOutcome::Skip
    } else {
        match item.node {
            ItemKindV::Enum(vars, generic) => if generic {
                EmitOutcome::Fail(
                    err_at(item.span, "bindgen can not handle parameterized `#[repr(C)]` enums"@),
                )
            } else {
                match spec_enum_variants(vars, item.name) {
                    Err(e) => EmitOutcome::Fail(e),
                    Ok(body) => EmitOutcome::Emit {
                        header: spec_header_name(module, lib),
                        text: docs + "typedef enum "@ + item.name + " {\n"@ + body + "} "@
                            + item.name + ";\n\n"@,
                        decl: Some(item.name),
                        deps: Seq::empty(),
                    },
                }
            },
            _ => EmitOutcome::Fail(bug_at(item.span, "`parse_enum` called on wrong `Item_`"@)),
        }
    }
}

/// The rendered member list of a C struct together with the type names the
/// members use; the first untranslatable member type rejects the run.
pub open spec fn spec_struct_fields(fields: Seq<StructFieldV>) -> Result<
    (Seq<char>, Seq<Seq<char>>),
    ErrorV,
>
    decreases fields.len(),
{
    if fields.len() == 0 {
        Ok((Seq::empty(), Seq::empty()))
    } else {
        let f = fields[0];
        match spec_rust_to_c(f.ty, f.name) {
            Err(e) => Err(e),
            Ok(c) => match spec_struct_fields(fields.drop_first()) {
                Err(e) => Err(e),
                Ok(rest) => Ok(
                    (
                        spec_docs(f.attrs, "\t"@) + "\t"@ + spec_render_named(c) + ";\n"@
                            + rest.0,
                        spec_deps(c.ty) + rest.1,
                    ),
                ),
            },
        }
    }
}

/// The outcome of the record emitter: without the C-layout marker the record
/// is skipped; named fields render as struct members in declared order; a
/// record with exactly one unlabeled field becomes an opaque forward
/// declaration that exposes no layout; any other unlabeled shape and generic
/// records reject the run.
pub open spec fn spec_parse_struct(item: ItemV, lib: Seq<char>, module: Seq<Seq<char>>) -> EmitOutcome {
    let repr_c = spec_attr_check(item.attrs, AttrCheck::ReprC);
    let docs = spec_docs(item.attrs, ""@);
    if !repr_c {
        EmitOutcome::Skip
    } else {
        match item.node {
            ItemKindV::Struct(vd, generic) => if generic {
                EmitOutcome::Fail(
                    err_at(item.span, "bindgen can not handle parameterized `#[repr(C)]` structs"@),
                )
            } else {
                match vd {
                    VariantDataV::Struct(fields) => match spec_struct_fields(fields) {
                        Err(e) => EmitOutcome::Fail(e),
                        Ok(body) => EmitOutcome::Emit {
                            header: spec_header_name(module, lib),
                            text: docs + "typedef struct "@ + item.name + " {\n"@ + body.0
                                + "} "@ + item.name + ";\n\n"@,
                            decl: Some(item.name),
                            deps: body.1,
                        },
                    },
                    VariantDataV::Tuple(n) => if n == 1 {
                        EmitOutcome::Emit {
                            header: spec_header_name(module, lib),
                            text: docs + "typedef struct "@ + item.name + " "@ + item.name
                                + ";\n\n"@,
                            decl: Some(item.name),
                            deps: Seq::empty(),
                        }
                    } else {
                        EmitOutcome::Fail(
                            err_at(
                                item.span,
                                "can not handle unit or tuple `#[repr(C)]` structs with >1 members"@,
                            ),
                        )
                    },
                    VariantDataV::Unit => EmitOutcome::Fail(
                        err_at(
                            item.span,
                            "can not handle unit or tuple `#[repr(C)]` structs with >1 members"@,
                        ),
                    ),
                }
            },
            _ => EmitOutcome::Fail(bug_at(item.span, "`parse_struct` called on wrong `Item_`"@)),
        }
    }
}

/// The outcome of turning one function signature into a C declaration: the
/// argument list renders with each argument's own name (empty lists render
/// as `void`); a return type that is itself a function pointer receives the
/// name-and-argument text as its inner declarator; a diverging return type
/// rejects the run.
pub open spec fn spec_transform_fn(
    decl: FnDeclV,
    docs: Seq<char>,
    name: Seq<char>,
    lib: Seq<char>,
    module: Seq<Seq<char>>,
) -> EmitOutcome {
    match spec_args_to_c(decl.inputs) {
        Err(e) => EmitOutcome::Fail(e),
        Ok(args) => {
            let buf = name + "("@ + (if args.len() == 0 {
                "void"@
            } else {
                spec_render_args(args)
            }) + ")"@;
            match decl.output {
                FnRetV::Default => EmitOutcome::Emit {
                    header: spec_header_name(module, lib),
                    text: docs + "void "@ + buf + ";\n\n"@,
                    decl: None,
                    deps: spec_deps_args(args),
                },
                FnRetV::Ty(t) => if *t is Never {
                    EmitOutcome::Fail(
                        crate::translate::err_v("panics across a C boundary are naughty!"@),
                    )
                } else {
                    match spec_rust_to_c(*t, buf) {
                        Err(e) => EmitOutcome::Fail(e),
                        Ok(c) => EmitOutcome::Emit {
                            header: spec_header_name(module, lib),
                            text: docs + spec_render_named(c) + ";\n\n"@,
                            decl: None,
                            deps: spec_deps_args(args) + spec_deps(c.ty),
                        },
                    }
                },
            }
        },
    }
}

/// The outcome of the function emitter: without the stable-linkage marker,
/// or with a calling convention C cannot call, the function is skipped; a
/// generic function rejects the run; otherwise the signature is transformed.
pub open spec fn spec_parse_fn(item: ItemV, lib: Seq<char>, module: Seq<Seq<char>>) -> EmitOutcome {
    let no_mangle = spec_attr_check(item.attrs, AttrCheck::NoMangle);
    let docs = spec_docs(item.attrs, ""@);
    if !no_mangle {
        EmitOutcome::Skip
    } else {
        match item.node {
            ItemKindV::Fn(decl, abi, generic) => match abi {
                Abi::C | Abi::Cdecl | Abi::Stdcall | Abi::Fastcall | Abi::System => if generic {
                    EmitOutcome::Fail(
                        err_at(item.span, "bindgen can not handle parameterized extern functions"@),
                    )
                } else {
                    spec_transform_fn(*decl, docs, item.name, lib, module)
                },
                _ => EmitOutcome::Skip,
            },
            _ => EmitOutcome::Fail(bug_at(item.span, "`parse_fn` called on wrong `Item_`"@)),
        }
    }
}

impl LangC {
    /// Transform one exported function signature into a C function
    /// declaration appended to the module's header.
    ///
    /// On a rejection nothing is recorded and nothing is appended.
    pub fn transform_native_fn(
        &mut self,
        fn_decl: &FnDecl,
        docs: &str,
        name: &str,
        module: &Vec<String>,
        outputs: &mut Outputs,
    ) -> (r: Result<(), Error>)
        requires
            module@.len() > 0,
        ensures
            ({
                let outcome = spec_transform_fn(
                    fn_decl@,
                    docs@,
                    name@,
                    old(self)@.lib_name,
                    strs_view(module@),
                );
                let t = spec_apply_emit(old(self)@, old(outputs)@, outcome);
                &&& final(self)@ == t.0
                &&& final(outputs)@ == t.1
                &&& (match r {
                    Ok(u) => !(outcome is Fail),
                    Err(e) => outcome == EmitOutcome::Fail(e@),
                })
            }),
    {
        let ghost iv = args_view(fn_decl.inputs@);
        proof {
            crate::ast::lemma_args_view(fn_decl.inputs@);
            assert(iv.skip(0) =~= iv);
        }
        let mut args: Vec<CTypeNamed> = Vec::new();
        let mut i: usize = 0;
        proof {
            if let Ok(rest) = spec_args_to_c(iv.skip(0)) {
                assert(cnamed_list_view(args@) + rest =~= rest);
            }
        }
        while i < fn_decl.inputs.len()
            invariant
                i <= fn_decl.inputs.len(),
                iv == args_view(fn_decl.inputs@),
                iv.len() == fn_decl.inputs.len(),
                forall|j: int| 0 <= j < iv.len() ==> #[trigger] iv[j] == fn_decl.inputs@[j]@,
                spec_args_to_c(iv) == match spec_args_to_c(iv.skip(i as int)) {
                    Ok(rest) => Ok::<_, ErrorV>(cnamed_list_view(args@) + rest),
                    Err(e) => Err(e),
                },
            decreases fn_decl.inputs.len() - i,
        {
            let arg = &fn_decl.inputs[i];
            proof {
                assert(iv.skip(i as int)[0] == arg@);
                assert(iv.skip(i as int).drop_first() =~= iv.skip(i + 1));
            }
            match rust_to_c(&arg.ty, arg.pat.text.as_str()) {
                Ok(c) => {
                    let ghost prev_vec = args@;
                    let ghost prev = cnamed_list_view(args@);
                    let ghost cv = c@;
                    args.push(c);
                    proof {
                        assert(args@.drop_last() =~= prev_vec);
                        assert(cnamed_list_view(args@) == cnamed_list_view(
                            args@.drop_last(),
                        ).push(args@.last()@));
                        assert(cnamed_list_view(args@) == prev.push(cv));
                        if let Ok(rest) = spec_args_to_c(iv.skip(i + 1)) {
                            assert(prev + (seq![cv] + rest) =~= prev.push(cv) + rest);
                        }
                    }
                    i += 1;
                },
                Err(e) => {
                    return Err(e);
                },
            }
        }
        proof {
            assert(iv.skip(iv.len() as int) =~= Seq::<ArgV>::empty());
            if let Ok(rest) = spec_args_to_c(iv.skip(iv.len() as int)) {
                assert(cnamed_list_view(args@) + rest =~= cnamed_list_view(args@));
            }
            crate::types::lemma_cnamed_list_view(args@);
            assert(fn_decl@.inputs == args_view(fn_decl.inputs@));
            assert(fn_decl@.output == fn_decl.output@);
        }
        // The name and parameters come first, so that a function-pointer
        // return type can wrap the whole declaration as its declarator.
        let ghost argsv = cnamed_list_view(args@);
        let ghost bufv = name@ + "("@ + (if argsv.len() == 0 {
            "void"@
        } else {
            spec_render_args(argsv)
        }) + ")"@;
        let mut buf = name.to_owned();
        buf.append("(");
        if args.len() == 0 {
            buf.append("void");
        } else {
            let list = render_named_list(&args);
            buf.append(list.as_str());
        }
        buf.append(")");
        proof {
            assert(buf@ =~= bufv);
        }
        match &fn_decl.output {
            FnRet::Ty(t) if matches!(&**t, TyExpr::Never) => {
                Err(error_of("panics across a C boundary are naughty!"))
            },
            FnRet::Default => {
                let mut text = docs.to_owned();
                text.append("void ");
                text.append(buf.as_str());
                text.append(";\n\n");
                proof {
                    assert(text@ =~= docs@ + "void "@ + bufv + ";\n\n"@);
                }
                let adeps = deps_named_list(&args);
                let header = match header_name(module, self.lib_name.as_str()) {
                    Ok(h) => h,
                    Err(e) => {
                        return Err(e);
                    },
                };
                if adeps.len() != 0 {
                    self.record_deps(header.as_str(), adeps);
                }
                outputs.append(header.as_str(), text.as_str());
                Ok(())
            },
            FnRet::Ty(t) => {
                match rust_to_c(&**t, buf.as_str()) {
                    Err(e) => Err(e),
                    Ok(c) => {
                        let ghost cv = c@;
                        let mut text = docs.to_owned();
                        let full = c.render();
                        text.append(full.as_str());
                        text.append(";\n\n");
                        proof {
                            assert(text@ =~= docs@ + spec_render_named(cv) + ";\n\n"@);
                        }
                        let mut adeps = deps_named_list(&args);
                        let ghost adv = strs_view(adeps@);
                        let mut rdeps = c.1.dependencies();
                        let ghost rdv = strs_view(rdeps@);
                        adeps.append(&mut rdeps);
                        proof {
                            assert(strs_view(adeps@) =~= adv + rdv);
                        }
                        let header = match header_name(module, self.lib_name.as_str()) {
                            Ok(h) => h,
                            Err(e) => {
                                return Err(e);
                            },
                        };
                        if adeps.len() != 0 {
                            self.record_deps(header.as_str(), adeps);
                        }
                        outputs.append(header.as_str(), text.as_str());
                        Ok(())
                    },
                }
            },
        }
    }

    /// Convert an exported function declaration into a C function
    /// declaration.
    ///
    /// The function must carry the stable-linkage marker and a C-compatible
    /// calling convention, otherwise it is passed over; a generic function
    /// rejects the run.
    pub fn parse_fn(&mut self, item: &Item, module: &Vec<String>, outputs: &mut Outputs) -> (r:
        Result<(), Error>)
        requires
            module@.len() > 0,
        ensures
            ({
                let outcome = spec_parse_fn(item@, old(self)@.lib_name, strs_view(module@));
                let t = spec_apply_emit(old(self)@, old(outputs)@, outcome);
                &&& final(self)@ == t.0
                &&& final(outputs)@ == t.1
                &&& (match r {
                    Ok(u) => !(outcome is Fail),
                    Err(e) => outcome == EmitOutcome::Fail(e@),
                })
            }),
    {
        let (no_mangle, docs) = parse_attr(&item.attrs, AttrCheck::NoMangle, "");
        // Without the stable-linkage marker the symbol cannot be named from C.
        if !no_mangle {
            return Ok(());
        }
        match &item.node {
            ItemKind::Fn(decl, abi, generic) => {
                match abi {
                    Abi::C | Abi::Cdecl | Abi::Stdcall | Abi::Fastcall | Abi::System => {},
                    _ => {
                        return Ok(());
                    },
                }
                if *generic {
                    return Err(
                        error_at(item.span, "bindgen can not handle parameterized extern functions"),
                    );
                }
                self.transform_native_fn(&**decl, docs.as_str(), item.name.as_str(), module, outputs)
            },
            _ => Err(bug_error_at(item.span, "`parse_fn` called on wrong `Item_`")),
        }
    }

    /// Convert an exported type alias into a C `typedef`.
    ///
    /// A generic alias cannot be expressed as a concrete typedef and is
    /// passed over.
    pub fn parse_ty(&mut self, item: &Item, module: &Vec<String>, outputs: &mut Outputs) -> (r:
        Result<(), Error>)
        requires
            module@.len() > 0,
        ensures
            ({
                let outcome = spec_parse_ty(item@, old(self)@.lib_name, strs_view(module@));
                let t = spec_apply_emit(old(self)@, old(outputs)@, outcome);
                &&& final(self)@ == t.0
                &&& final(outputs)@ == t.1
                &&& (match r {
                    Ok(u) => !(outcome is Fail),
                    Err(e) => outcome == EmitOutcome::Fail(e@),
                })
            }),
    {
        let (_passed, docs) = parse_attr(&item.attrs, AttrCheck::Always, "");
        match &item.node {
            ItemKind::Ty(ty, generic) => {
                // A parameterized alias has no concrete C spelling.
                if *generic {
                    return Ok(());
                }
                match rust_to_c(&**ty, item.name.as_str()) {
                    Err(e) => Err(e),
                    Ok(c) => {
                        let ghost cv = c@;
                        let rendered = c.render();
                        let mut buffer = docs;
                        buffer.append("typedef ");
                        buffer.append(rendered.as_str());
                        buffer.append(";\n\n");
                        proof {
                            assert(buffer@ =~= spec_docs(attrs_view(item.attrs@), ""@)
                                + "typedef "@ + spec_render_named(cv) + ";\n\n"@);
                        }
                        let header = match header_name(module, self.lib_name.as_str()) {
                            Ok(h) => h,
                            Err(e) => {
                                return Err(e);
                            },
                        };
                        let deps = c.1.dependencies();
                        if deps.len() != 0 {
                            self.record_deps(header.as_str(), deps);
                        }
                        outputs.append(header.as_str(), buffer.as_str());
                        self.decls.set(item.name.as_str(), header);
                        Ok(())
                    },
                }
            },
            _ => Err(bug_error_at(item.span, "`parse_ty` called on wrong `Item_`")),
        }
    }

    /// Convert an exported enum into a C enum.
    ///
    /// Without the C-layout marker the enum is passed over; a generic enum
    /// or one with non-unit variants rejects the run. Variant order carries
    /// over unchanged, since it fixes the C discriminant values.
    pub fn parse_enum(&mut self, item: &Item, module: &Vec<String>, outputs: &mut Outputs) -> (r:
        Result<(), Error>)
        requires
            module@.len() > 0,
        ensures
            ({
                let outcome = spec_parse_enum(item@, old(self)@.lib_name, strs_view(module@));
                let t = spec_apply_emit(old(self)@, old(outputs)@, outcome);
                &&& final(self)@ == t.0
                &&& final(outputs)@ == t.1
                &&& (match r {
                    Ok(u) => !(outcome is Fail),
                    Err(e) => outcome == EmitOutcome::Fail(e@),
                })
            }),
    {
        let (repr_c, docs) = parse_attr(&item.attrs, AttrCheck::ReprC, "");
        // Without a C-compatible layout the enum cannot cross into C.
        if !repr_c {
            return Ok(());
        }
        match &item.node {
            ItemKind::Enum(vars, generic) => {
                if *generic {
                    return Err(
                        error_at(item.span, "bindgen can not handle parameterized `#[repr(C)]` enums"),
                    );
                }
                let ghost vsv = item@.node->Enum_0;
                let ghost namev = item@.name;
                proof {
                    assert(vsv.len() == vars@.len());
                    assert(vsv.skip(0) =~= vsv);
                }
                let mut body = String::new();
                let mut i: usize = 0;
                proof {
                    if let Ok(b) = spec_enum_variants(vsv.skip(0), namev) {
                        assert(body@ + b =~= b);
                    }
                }
                while i < vars.len()
                    invariant
                        i <= vars.len(),
                        spec_attr_check(attrs_view(item.attrs@), AttrCheck::ReprC),
                        item@.node == ItemKindV::Enum(vsv, false),
                        vsv == item@.node->Enum_0,
                        namev == item@.name,
                        vsv.len() == vars@.len(),
                        forall|j: int| 0 <= j < vsv.len() ==> #[trigger] vsv[j] == vars@[j]@,
                        spec_enum_variants(vsv, namev) == match spec_enum_variants(
                            vsv.skip(i as int),
                            namev,
                        ) {
                            Ok(b) => Ok::<_, ErrorV>(body@ + b),
                            Err(e) => Err(e),
                        },
                    decreases vars.len() - i,
                {
                    let v = &vars[i];
                    proof {
                        assert(vsv.skip(i as int)[0] == v@);
                        assert(vsv.skip(i as int).drop_first() =~= vsv.skip(i + 1));
                    }
                    if !v.is_unit {
                        return Err(
                            error_at(
                                v.span,
                                "bindgen can not handle `#[repr(C)]` enums with non-unit variants",
                            ),
                        );
                    }
                    let (_vp, vdocs) = parse_attr(&v.attrs, AttrCheck::Always, "\t");
                    let ghost prev_body = body@;
                    body.append(vdocs.as_str());
                    body.append("\t");
                    body.append(item.name.as_str());
                    body.append("_");
                    body.append(v.name.as_str());
                    body.append(",\n");
                    proof {
                        let chunk = spec_docs(v@.attrs, "\t"@) + "\t"@ + namev + "_"@ + v@.name
                            + ",\n"@;
                        assert(body@ =~= prev_body + chunk);
                        if let Ok(b) = spec_enum_variants(vsv.skip(i + 1), namev) {
                            assert(prev_body + (chunk + b) =~= body@ + b);
                        }
                    }
                    i += 1;
                }
                proof {
                    assert(vsv.skip(vsv.len() as int) =~= Seq::<VariantV>::empty());
                    if let Ok(b) = spec_enum_variants(vsv.skip(vsv.len() as int), namev) {
                        assert(body@ + b =~= body@);
                    }
                }
                let mut buffer = docs;
                buffer.append("typedef enum ");
                buffer.append(item.name.as_str());
                buffer.append(" {\n");
                buffer.append(body.as_str());
                buffer.append("} ");
                buffer.append(item.name.as_str());
                buffer.append(";\n\n");
                proof {
                    assert(buffer@ =~= spec_docs(attrs_view(item.attrs@), ""@) + "typedef enum "@
                        + namev + " {\n"@ + body@ + "} "@ + namev + ";\n\n"@);
                }
                let header = match header_name(module, self.lib_name.as_str()) {
                    Ok(h) => h,
                    Err(e) => {
                        return Err(e);
                    },
                };
                outputs.append(header.as_str(), buffer.as_str());
                self.decls.set(item.name.as_str(), header);
                Ok(())
            },
            _ => Err(bug_error_at(item.span, "`parse_enum` called on wrong `Item_`")),
        }
    }

    /// Convert an exported record into a C struct.
    ///
    /// Without the C-layout marker the record is passed over. Named fields
    /// render as struct members in declared order. A record with exactly
    /// one unlabeled field is exported as an opaque forward declaration that
    /// hides the field's layout; any other unlabeled shape, and generic
    /// records, reject the run.
    pub fn parse_struct(&mut self, item: &Item, module: &Vec<String>, outputs: &mut Outputs) -> (r:
        Result<(), Error>)
        requires
            module@.len() > 0,
        ensures
            ({
                let outcome = spec_parse_struct(item@, old(self)@.lib_name, strs_view(module@));
                let t = spec_apply_emit(old(self)@, old(outputs)@, outcome);
                &&& final(self)@ == t.0
                &&& final(outputs)@ == t.1
                &&& (match r {
                    Ok(u) => !(outcome is Fail),
                    Err(e) => outcome == EmitOutcome::Fail(e@),
                })
            }),
    {
        let (repr_c, docs) = parse_attr(&item.attrs, AttrCheck::ReprC, "");
        // Without a C-compatible layout the record cannot cross into C.
        if !repr_c {
            return Ok(());
        }
        match &item.node {
            ItemKind::Struct(vd, generic) => {
                if *generic {
                    return Err(
                        error_at(
                            item.span,
                            "bindgen can not handle parameterized `#[repr(C)]` structs",
                        ),
                    );
                }
                let ghost namev = item@.name;
                match vd {
                    VariantData::Struct(fields) => {
                        let ghost fsv = vd@->Struct_0;
                        proof {
                            assert(fsv.len() == fields@.len());
                            assert(fsv.skip(0) =~= fsv);
                        }
                        let mut body = String::new();
                        let mut fdeps: Vec<String> = Vec::new();
                        let mut i: usize = 0;
                        proof {
                            assert(strs_view(fdeps@) =~= Seq::<Seq<char>>::empty());
                            if let Ok(rest) = spec_struct_fields(fsv.skip(0)) {
                                assert(body@ + rest.0 =~= rest.0);
                                assert(strs_view(fdeps@) + rest.1 =~= rest.1);
                            }
                        }
                        while i < fields.len()
                            invariant
                                i <= fields.len(),
                                spec_attr_check(attrs_view(item.attrs@), AttrCheck::ReprC),
                                item@.node == ItemKindV::Struct(vd@, false),
                                vd@ == VariantDataV::Struct(fsv),
                                fsv == vd@->Struct_0,
                                fsv.len() == fields@.len(),
                                forall|j: int| 0 <= j < fsv.len() ==> #[trigger] fsv[j]
                                    == fields@[j]@,
                                spec_struct_fields(fsv) == match spec_struct_fields(
                                    fsv.skip(i as int),
                                ) {
                                    Ok(rest) => Ok::<_, ErrorV>(
                                        (body@ + rest.0, strs_view(fdeps@) + rest.1),
                                    ),
                                    Err(e) => Err(e),
                                },
                            decreases fields.len() - i,
                        {
                            let f = &fields[i];
                            proof {
                                assert(fsv.skip(i as int)[0] == f@);
                                assert(fsv.skip(i as int).drop_first() =~= fsv.skip(i + 1));
                            }
                            let (_fp, fdocs) = parse_attr(&f.attrs, AttrCheck::Always, "\t");
                            match rust_to_c(&f.ty, f.name.as_str()) {
                                Err(e) => {
                                    return Err(e);
                                },
                                Ok(c) => {
                                    let ghost cv = c@;
                                    let ghost prev_body = body@;
                                    let ghost prev_deps = strs_view(fdeps@);
                                    let rendered = c.render();
                                    body.append(fdocs.as_str());
                                    body.append("\t");
                                    body.append(rendered.as_str());
                                    body.append(";\n");
                                    let mut d = c.1.dependencies();
                                    let ghost dv = strs_view(d@);
                                    fdeps.append(&mut d);
                                    proof {
                                        let chunk = spec_docs(f@.attrs, "\t"@) + "\t"@
                                            + spec_render_named(cv) + ";\n"@;
                                        assert(body@ =~= prev_body + chunk);
                                        assert(strs_view(fdeps@) =~= prev_deps + dv);
                                        if let Ok(rest) = spec_struct_fields(fsv.skip(i + 1)) {
                                            assert(prev_body + (chunk + rest.0) =~= body@
                                                + rest.0);
                                            assert(prev_deps + (dv + rest.1) =~= strs_view(fdeps@)
                                                + rest.1);
                                        }
                                    }
                                    i += 1;
                                },
                            }
                        }
                        proof {
                            assert(fsv.skip(fsv.len() as int) =~= Seq::<StructFieldV>::empty());
                            if let Ok(rest) = spec_struct_fields(fsv.skip(fsv.len() as int)) {
                                assert(body@ + rest.0 =~= body@);
                                assert(strs_view(fdeps@) + rest.1 =~= strs_view(fdeps@));
                            }
                        }
                        let mut buffer = docs;
                        buffer.append("typedef struct ");
                        buffer.append(item.name.as_str());
                        buffer.append(" {\n");
                        buffer.append(body.as_str());
                        buffer.append("} ");
                        buffer.append(item.name.as_str());
                        buffer.append(";\n\n");
                        proof {
                            assert(buffer@ =~= spec_docs(attrs_view(item.attrs@), ""@)
                                + "typedef struct "@ + namev + " {\n"@ + body@ + "} "@ + namev
                                + ";\n\n"@);
                        }
                        let header = match header_name(module, self.lib_name.as_str()) {
                            Ok(h) => h,
                            Err(e) => {
                                return Err(e);
                            },
                        };
                        if fdeps.len() != 0 {
                            self.record_deps(header.as_str(), fdeps);
                        }
                        outputs.append(header.as_str(), buffer.as_str());
                        self.decls.set(item.name.as_str(), header);
                        Ok(())
                    },
                    VariantData::Tuple(n) => {
                        if *n == 1 {
                            // The single field's layout stays hidden: only an
                            // opaque forward declaration is exported.
                            let mut buffer = docs;
                            buffer.append("typedef struct ");
                            buffer.append(item.name.as_str());
                            buffer.append(" ");
                            buffer.append(item.name.as_str());
                            buffer.append(";\n\n");
                            proof {
                                assert(buffer@ =~= spec_docs(attrs_view(item.attrs@), ""@)
                                    + "typedef struct "@ + namev + " "@ + namev + ";\n\n"@);
                            }
                            let header = match header_name(module, self.lib_name.as_str()) {
                                Ok(h) => h,
                                Err(e) => {
                                    return Err(e);
                                },
                            };
                            outputs.append(header.as_str(), buffer.as_str());
                            self.decls.set(item.name.as_str(), header);
                            Ok(())
                        } else {
                            Err(
                                error_at(
                                    item.span,
                                    "can not handle unit or tuple `#[repr(C)]` structs with >1 members",
                                ),
                            )
                        }
                    },
                    VariantData::Unit => Err(
                        error_at(
                            item.span,
                            "can not handle unit or tuple `#[repr(C)]` structs with >1 members",
                        ),
                    ),
                }
            },
            _ => Err(bug_error_at(item.span, "`parse_struct` called on wrong `Item_`")),
        }
    }
}

impl Default for LangC {
    fn default() -> (r: Self)
        ensures
            r@ == (LangCV {
                lib_name: "backend"@,
                decls: Seq::<(Seq<char>, Seq<char>)>::empty(),
                deps: Seq::<(Seq<char>, Seq<Seq<char>>)>::empty(),
                custom_code: Seq::<char>::empty(),
            }),
    {
        Self::new()
    }
}

/// The header paths of an output store, in store order.
pub open spec fn keys_of(o: Seq<(Seq<char>, Seq<char>)>) -> Seq<Seq<char>> {
    Seq::new(o.len(), |i: int| o[i].0)
}

/// Index of the first occurrence of `k`, or `-1` when it is absent.
pub open spec fn find_str(s: Seq<Seq<char>>, k: Seq<char>) -> int
    decreases s.len(),
{
    if s.len() == 0 {
        -1
    } else if s[0] == k {
        0
    } else {
        let r = find_str(s.drop_first(), k);
        if r == -1 {
            -1
        } else {
            r + 1
        }
    }
}

pub proof fn lemma_find_str(s: Seq<Seq<char>>, k: Seq<char>)
    ensures
        find_str(s, k) == -1 ==> forall|i: int| 0 <= i < s.len() ==> s[i] != k,
        find_str(s, k) != -1 ==> 0 <= find_str(s, k) < s.len() && s[find_str(s, k)] == k
            && forall|i: int| 0 <= i < find_str(s, k) ==> s[i] != k,
    decreases s.len(),
{
    if s.len() > 0 && s[0] != k {
        lemma_find_str(s.drop_first(), k);
        assert forall|i: int| 1 <= i < s.len() implies s.drop_first()[i - 1] == s[i] by {}
    }
}

fn position_str(v: &Vec<String>, key: &str) -> (r: Option<usize>)
    ensures
        match r {
            Some(i) => find_str(strs_view(v@), key@) == i && i < v@.len(),
            None => find_str(strs_view(v@), key@) == -1,
        },
{
    let ghost sv = strs_view(v@);
    let mut i: usize = 0;
    while i < v.len()
        invariant
            i <= v@.len(),
            sv == strs_view(v@),
            sv.len() == v@.len(),
            forall|j: int| 0 <= j < i ==> sv[j] != key@,
        decreases v@.len() - i,
    {
        if str_eq(v[i].as_str(), key) {
            proof {
                lemma_find_str(sv, key@);
                let f = find_str(sv, key@);
                assert(sv[i as int] == key@);
                if f == -1 {
                    assert(sv[i as int] != key@);
                } else if f < i {
                    assert(sv[f] != key@);
                    assert(sv[f] == key@);
                } else if f > i {
                    assert(sv[i as int] != key@);
                }
            }
            return Some(i);
        }
        i += 1;
    }
    proof {
        lemma_find_str(sv, key@);
        if find_str(sv, key@) != -1 {
            assert(sv[find_str(sv, key@)] != key@);
            assert(sv[find_str(sv, key@)] == key@);
        }
    }
    None
}

/// `k` inserted into a sorted list: before the first greater element, after
/// every element at or below it.
pub open spec fn spec_lex_insert(s: Seq<Seq<char>>, k: Seq<char>) -> Seq<Seq<char>>
    decreases s.len(),
{
    if s.len() == 0 {
        seq![k]
    } else if lex_le(s[0], k) {
        seq![s[0]] + spec_lex_insert(s.drop_first(), k)
    } else {
        seq![k] + s
    }
}

/// The keys in lexicographic order, obtained by sorted insertion in store
/// order, so that the node numbering of the dependency graph is stable.
pub open spec fn spec_lex_sort(keys: Seq<Seq<char>>) -> Seq<Seq<char>>
    decreases keys.len(),
{
    if keys.len() == 0 {
        Seq::empty()
    } else {
        spec_lex_insert(spec_lex_sort(keys.drop_last()), keys.last())
    }
}

proof fn lemma_lex_insert_at(s: Seq<Seq<char>>, k: Seq<char>, j: int)
    requires
        0 <= j <= s.len(),
        forall|i: int| 0 <= i < j ==> lex_le(#[trigger] s[i], k),
        j < s.len() ==> !lex_le(s[j], k),
    ensures
        spec_lex_insert(s, k) == s.take(j) + seq![k] + s.skip(j),
    decreases s.len(),
{
    if s.len() == 0 {
        assert(s.take(0) + seq![k] + s.skip(0) =~= seq![k]);
    } else if j == 0 {
        assert(s.take(0) + seq![k] + s.skip(0) =~= seq![k] + s);
    } else {
        assert(lex_le(s[0], k));
        lemma_lex_insert_at(s.drop_first(), k, j - 1);
        assert(s.drop_first().take(j - 1) =~= s.take(j).drop_first());
        assert(seq![s[0]] + (s.take(j).drop_first() + seq![k] + s.drop_first().skip(j - 1))
            =~= s.take(j) + seq![k] + s.skip(j));
    }
}

fn insert_sorted(v: &mut Vec<String>, key: String)
    ensures
        strs_view(final(v)@) == spec_lex_insert(strs_view(old(v)@), key@),
{
    let ghost sv = strs_view(v@);
    let mut j: usize = 0;
    while j < v.len()
        invariant
            j <= v@.len(),
            sv == strs_view(v@),
            sv.len() == v@.len(),
            forall|i: int| 0 <= i < j ==> lex_le(#[trigger] sv[i], key@),
        ensures
            j <= v@.len(),
            sv == strs_view(v@),
            forall|i: int| 0 <= i < j ==> lex_le(#[trigger] sv[i], key@),
            j < v@.len() ==> !lex_le(sv[j as int], key@),
        decreases v@.len() - j,
    {
        if !str_le(v[j].as_str(), key.as_str()) {
            break;
        }
        j += 1;
    }
    proof {
        lemma_lex_insert_at(sv, key@, j as int);
    }
    v.insert(j, key);
    proof {
        assert(strs_view(v@) =~= sv.take(j as int) + seq![key@] + sv.skip(j as int));
    }
}

fn sorted_keys(outputs: &Outputs) -> (r: Vec<String>)
    ensures
        strs_view(r@) == spec_lex_sort(keys_of(outputs@)),
{
    let ghost kv = keys_of(outputs@);
    let mut sorted: Vec<String> = Vec::new();
    proof {
        assert(strs_view(sorted@) =~= Seq::<Seq<char>>::empty());
        assert(kv.take(0) =~= Seq::<Seq<char>>::empty());
    }
    let n = outputs.len();
    let mut i: usize = 0;
    while i < n
        invariant
            i <= n,
            n == outputs@.len(),
            kv == keys_of(outputs@),
            strs_view(sorted@) == spec_lex_sort(kv.take(i as int)),
        decreases n - i,
    {
        let key = outputs.key_at(i).clone();
        proof {
            assert(kv.take(i + 1).drop_last() =~= kv.take(i as int));
            assert(kv.take(i + 1).last() == key@);
        }
        insert_sorted(&mut sorted, key);
        i += 1;
    }
    proof {
        assert(kv.take(kv.len() as int) =~= kv);
    }
    sorted
}

/// The dependency edges one referenced-name list contributes for the header
/// numbered `i`: each name that resolves through the declaration table to a
/// different header that produced output becomes an edge from that header's
/// node to node `i`.
pub open spec fn spec_edges_for(
    keys: Seq<Seq<char>>,
    decls: Seq<(Seq<char>, Seq<char>)>,
    i: int,
    ds: Seq<Seq<char>>,
) -> Seq<(usize, usize)>
    decreases ds.len(),
{
    if ds.len() == 0 {
        Seq::empty()
    } else {
        (match spec_get_entry(decls, ds[0]) {
            Some(h) => if h == keys[i] {
                Seq::empty()
            } else {
                if find_str(keys, h) == -1 {
                    Seq::empty()
                } else {
                    seq![(find_str(keys, h) as usize, i as usize)]
                }
            },
            None => Seq::empty(),
        }) + spec_edges_for(keys, decls, i, ds.drop_first())
    }
}

/// The dependency edges of the headers numbered below `n`, in numbering
/// order.
pub open spec fn spec_edges_upto(
    keys: Seq<Seq<char>>,
    deps: Seq<(Seq<char>, Seq<Seq<char>>)>,
    decls: Seq<(Seq<char>, Seq<char>)>,
    n: int,
) -> Seq<(usize, usize)>
    decreases n,
{
    if n <= 0 {
        Seq::empty()
    } else {
        spec_edges_upto(keys, deps, decls, n - 1) + (match spec_get_entry(deps, keys[n - 1]) {
            Some(ds) => spec_edges_for(keys, decls, n - 1, ds),
            None => Seq::empty(),
        })
    }
}

/// Every dependency edge of the header set, self-edges and unresolved names
/// dropped.
pub open spec fn spec_edges(
    keys: Seq<Seq<char>>,
    deps: Seq<(Seq<char>, Seq<Seq<char>>)>,
    decls: Seq<(Seq<char>, Seq<char>)>,
) -> Seq<(usize, usize)> {
    spec_edges_upto(keys, deps, decls, keys.len() as int)
}

/// A header's final text: the two fixed standard includes, the accumulated
/// body, the linkage guard, and an include guard keyed by the header path.
pub open spec fn spec_wrap_header(name: Seq<char>, body: Seq<char>) -> Seq<char> {
    spec_wrap_guard(
        spec_wrap_extern("#include <stdint.h>\n#include <stdbool.h>\n\n"@ + body),
        name,
    )
}

/// The `#include` lines of the aggregate header, one per node in the given
/// order.
pub open spec fn spec_includes(keys: Seq<Seq<char>>, order: Seq<usize>) -> Seq<char>
    decreases order.len(),
{
    if order.len() == 0 {
        Seq::empty()
    } else {
        spec_includes(keys, order.drop_last()) + "#include \""@ + keys[order.last() as int]
            + "\"\n"@
    }
}

/// The output store after a successful assembly with the include order
/// `order`: every header wrapped, plus the aggregate header, which holds
/// the custom code first and then one include per header, dependencies
/// first.
pub open spec fn spec_final_outputs(
    lv: LangCV,
    o: Seq<(Seq<char>, Seq<char>)>,
    order: Seq<usize>,
) -> Seq<(Seq<char>, Seq<char>)> {
    let skeys = spec_lex_sort(keys_of(o));
    let wrapped = Seq::new(o.len(), |i: int| (o[i].0, spec_wrap_header(o[i].0, o[i].1)));
    let agg_body = (if lv.custom_code.len() > 0 {
        lv.custom_code + "\n"@
    } else {
        Seq::empty()
    }) + spec_includes(skeys, order);
    spec_set_entry(wrapped, lv.lib_name + ".h"@, spec_wrap_guard(agg_body, lv.lib_name + "_root"@))
}

impl LangC {
    /// Assemble the final header set.
    ///
    /// Every header is wrapped with the standard includes and its guards,
    /// and one aggregate top-level header is added whose `#include` lines
    /// follow a topological order of the dependency graph, so that every
    /// header comes after the headers it depends on. A dependency cycle
    /// between headers aborts the run and leaves the output store untouched.
    pub fn finalise_output(&mut self, outputs: &mut Outputs) -> (r: Result<(), Error>)
        ensures
            *final(self) == *old(self),
            ({
                let skeys = spec_lex_sort(keys_of(old(outputs)@));
                let edges = spec_edges(skeys, old(self)@.deps, old(self)@.decls);
                match r {
                    Ok(u) => {
                        &&& toposort_of(skeys.len() as int, edges) is Some
                        &&& !has_cycle(edges)
                        &&& is_topo_order(
                            skeys.len() as int,
                            edges,
                            toposort_of(skeys.len() as int, edges)->Some_0,
                        )
                        &&& final(outputs)@ == spec_final_outputs(
                            old(self)@,
                            old(outputs)@,
                            toposort_of(skeys.len() as int, edges)->Some_0,
                        )
                    },
                    Err(e) => {
                        &&& toposort_of(skeys.len() as int, edges) is None
                        &&& has_cycle(edges)
                        &&& final(outputs)@ == old(outputs)@
                        &&& e@ == crate::translate::err_v(
                            "dependency cycle between generated headers"@,
                        )
                    },
                }
            }),
    {
        let keys = sorted_keys(outputs);
        let ghost ksv = strs_view(keys@);
        let ghost depsv = self@.deps;
        let ghost declsv = self@.decls;
        let n = keys.len();
        proof {
            assert(ksv.len() == keys@.len());
        }

        // Resolve every recorded type name through the declaration table
        // into edges between header nodes, in node order.
        let mut evec: Vec<(usize, usize)> = Vec::new();
        let mut i: usize = 0;
        proof {
            assert(evec@ =~= spec_edges_upto(ksv, depsv, declsv, 0));
        }
        while i < n
            invariant
                i <= n,
                n == keys@.len(),
                ksv == strs_view(keys@),
                ksv.len() == n,
                depsv == self@.deps,
                declsv == self@.decls,
                evec@ == spec_edges_upto(ksv, depsv, declsv, i as int),
                forall|e: int| 0 <= e < evec@.len() ==> (#[trigger] evec@[e]).0 < n
                    && evec@[e].1 < n,
            decreases n - i,
        {
            let ghost e_base = evec@;
            match self.deps_position(keys[i].as_str()) {
                None => {
                    proof {
                        assert(spec_get_entry(depsv, ksv[i as int]) is None);
                        assert(evec@ =~= spec_edges_upto(ksv, depsv, declsv, i + 1));
                    }
                },
                Some(di) => {
                    let ghost dsv = self@.deps[di as int].1;
                    proof {
                        lemma_find_key(depsv, ksv[i as int]);
                        assert(spec_get_entry(depsv, ksv[i as int]) == Some(dsv));
                        assert(dsv.skip(0) =~= dsv);
                        assert(e_base + spec_edges_for(ksv, declsv, i as int, dsv.skip(0))
                            =~= e_base + spec_edges_for(ksv, declsv, i as int, dsv));
                    }
                    let dlen = self.deps[di].1.len();
                    let mut k: usize = 0;
                    while k < dlen
                        invariant
                            k <= dlen,
                            i < n,
                            n == keys@.len(),
                            ksv == strs_view(keys@),
                            ksv.len() == n,
                            depsv == self@.deps,
                            declsv == self@.decls,
                            di < self@.deps.len(),
                            dsv == self@.deps[di as int].1,
                            dlen == dsv.len(),
                            dlen == self.deps[di as int].1@.len(),
                            evec@ + spec_edges_for(ksv, declsv, i as int, dsv.skip(k as int))
                                == e_base + spec_edges_for(ksv, declsv, i as int, dsv),
                            forall|e: int| 0 <= e < evec@.len() ==> (#[trigger] evec@[e]).0 < n
                                && evec@[e].1 < n,
                        decreases dlen - k,
                    {
                        let d = &self.deps[di].1[k];
                        let ghost dv = dsv[k as int];
                        proof {
                            assert(dv == d@);
                            assert(dsv.skip(k as int)[0] == dv);
                            assert(dsv.skip(k as int).drop_first() =~= dsv.skip(k + 1));
                        }
                        let ghost chunk = (match spec_get_entry(declsv, dv) {
                            Some(h) => if h == ksv[i as int] {
                                Seq::<(usize, usize)>::empty()
                            } else {
                                if find_str(ksv, h) == -1 {
                                    Seq::<(usize, usize)>::empty()
                                } else {
                                    seq![(find_str(ksv, h) as usize, i as usize)]
                                }
                            },
                            None => Seq::<(usize, usize)>::empty(),
                        });
                        let ghost prev_e = evec@;
                        match self.decls.get(d.as_str()) {
                            None => {
                                proof {
                                    assert(chunk =~= Seq::<(usize, usize)>::empty());
                                    assert(prev_e + chunk =~= prev_e);
                                }
                            },
                            Some(h) => {
                                if str_eq(h.as_str(), keys[i].as_str()) {
                                    proof {
                                        assert(chunk =~= Seq::<(usize, usize)>::empty());
                                        assert(prev_e + chunk =~= prev_e);
                                    }
                                } else {
                                    match position_str(&keys, h.as_str()) {
                                        None => {
                                            proof {
                                                assert(chunk =~= Seq::<(usize, usize)>::empty());
                                                assert(prev_e + chunk =~= prev_e);
                                            }
                                        },
                                        Some(j) => {
                                            evec.push((j, i));
                                            proof {
                                                assert(chunk =~= seq![(j, i)]);
                                                assert(evec@ =~= prev_e + chunk);
                                            }
                                        },
                                    }
                                }
                            },
                        }
                        proof {
                            assert(evec@ + spec_edges_for(ksv, declsv, i as int, dsv.skip(k + 1))
                                =~= (prev_e + chunk) + spec_edges_for(
                                ksv,
                                declsv,
                                i as int,
                                dsv.skip(k + 1),
                            ));
                            assert(prev_e + (chunk + spec_edges_for(
                                ksv,
                                declsv,
                                i as int,
                                dsv.skip(k + 1),
                            )) =~= (prev_e + chunk) + spec_edges_for(
                                ksv,
                                declsv,
                                i as int,
                                dsv.skip(k + 1),
                            ));
                        }
                        k += 1;
                    }
                    proof {
                        assert(dsv.skip(dsv.len() as int) =~= Seq::<Seq<char>>::empty());
                        assert(evec@ + Seq::<(usize, usize)>::empty() =~= evec@);
                        assert(evec@ =~= spec_edges_upto(ksv, depsv, declsv, i + 1));
                    }
                },
            }
            i += 1;
        }

        // Build the graph and sort it; a cycle is fatal, and nothing has
        // been written yet.
        let mut g = graph_new();
        let mut a: usize = 0;
        while a < n
            invariant
                a <= n,
                graph_node_count(g) == a,
                graph_edge_seq(g) == Seq::<(usize, usize)>::empty(),
            decreases n - a,
        {
            let _ = graph_add_node(&mut g);
            a += 1;
        }
        let mut b: usize = 0;
        proof {
            assert(evec@.take(0) =~= Seq::<(usize, usize)>::empty());
        }
        while b < evec.len()
            invariant
                b <= evec@.len(),
                graph_node_count(g) == n,
                graph_edge_seq(g) == evec@.take(b as int),
                evec@ == spec_edges_upto(ksv, depsv, declsv, n as int),
                forall|e: int| 0 <= e < evec@.len() ==> (#[trigger] evec@[e]).0 < n
                    && evec@[e].1 < n,
            decreases evec@.len() - b,
        {
            let edge = evec[b];
            graph_add_edge(&mut g, edge.0, edge.1);
            proof {
                assert(evec@.take(b + 1) =~= evec@.take(b as int).push(edge));
            }
            b += 1;
        }
        proof {
            assert(evec@.take(evec@.len() as int) =~= evec@);
        }
        let order = match graph_toposort(&g) {
            None => {
                return Err(error_of("dependency cycle between generated headers"));
            },
            Some(o) => o,
        };

        // Wrap every header with the standard includes and both guards.
        let ghost o0 = outputs@;
        let len = outputs.len();
        let mut w: usize = 0;
        while w < len
            invariant
                w <= len,
                len == outputs@.len(),
                outputs@.len() == o0.len(),
                forall|j: int| 0 <= j < w ==> #[trigger] outputs@[j] == (
                    o0[j].0,
                    spec_wrap_header(o0[j].0, o0[j].1),
                ),
                forall|j: int| w <= j < len ==> #[trigger] outputs@[j] == o0[j],
            decreases len - w,
        {
            let key = outputs.key_at(w).clone();
            let mut code = "#include <stdint.h>\n#include <stdbool.h>\n\n".to_owned();
            code.append(outputs.val_at(w).as_str());
            let wrapped = wrap_guard(wrap_extern(code.as_str()).as_str(), key.as_str());
            outputs.set_val_at(w, wrapped);
            w += 1;
        }
        proof {
            assert(outputs@ =~= Seq::new(
                o0.len(),
                |j: int| (o0[j].0, spec_wrap_header(o0[j].0, o0[j].1)),
            ));
        }

        // Assemble the aggregate top-level header: custom code first, then
        // one include per header in dependency order.
        let mut top = String::new();
        if !self.custom_code.as_str().is_empty() {
            top.append(self.custom_code.as_str());
            top.append("\n");
        }
        proof {
            if self@.custom_code.len() == 0 {
                assert(top@ =~= Seq::<char>::empty());
            }
        }
        let ghost custom_part = (if self@.custom_code.len() > 0 {
            self@.custom_code + "\n"@
        } else {
            Seq::<char>::empty()
        });
        let ghost ov = order@;
        let mut q: usize = 0;
        proof {
            assert(top@ + spec_includes(ksv, ov.take(0)) =~= top@);
            assert(ov.take(0) =~= Seq::<usize>::empty());
        }
        let ghost top0 = top@;
        while q < order.len()
            invariant
                q <= order@.len(),
                ov == order@,
                ksv == strs_view(keys@),
                keys@.len() == n,
                ksv.len() == n,
                forall|j: int| 0 <= j < ov.len() ==> (#[trigger] ov[j]) < n,
                top@ == top0 + spec_includes(ksv, ov.take(q as int)),
            decreases order@.len() - q,
        {
            let idx = order[q];
            proof {
                assert(ov.take(q + 1).drop_last() =~= ov.take(q as int));
                assert(ov.take(q + 1).last() == idx);
            }
            top.append("#include \"");
            top.append(keys[idx].as_str());
            top.append("\"\n");
            proof {
                assert(top@ =~= top0 + spec_includes(ksv, ov.take(q + 1)));
            }
            q += 1;
        }
        proof {
            assert(ov.take(ov.len() as int) =~= ov);
        }
        let mut aggname = self.lib_name.clone();
        aggname.append(".h");
        let mut gid = self.lib_name.clone();
        gid.append("_root");
        let wrapped_top = wrap_guard(top.as_str(), gid.as_str());
        outputs.set(aggname.as_str(), wrapped_top);
        proof {
            assert(aggname@ =~= self@.lib_name + ".h"@);
            assert(gid@ =~= self@.lib_name + "_root"@);
            assert(top@ =~= custom_part + spec_includes(ksv, ov));
        }
        Ok(())
    }
}

/// The struct-member line one field renders to, assuming its type
/// translates.
pub open spec fn spec_field_line(f: StructFieldV) -> Seq<char> {
    spec_docs(f.attrs, "\t"@) + "\t"@ + spec_render_named(
        spec_rust_to_c(f.ty, f.name)->Ok_0,
    ) + ";\n"@
}

/// A record whose fields all translate renders exactly one member line per
/// field, in declared order.
pub proof fn lemma_struct_members_in_order(fields: Seq<StructFieldV>)
    requires
        forall|i: int| 0 <= i < fields.len() ==> (#[trigger] spec_rust_to_c(
            fields[i].ty,
            fields[i].name,
        )) is Ok,
    ensures
        spec_struct_fields(fields) is Ok,
        spec_struct_fields(fields)->Ok_0.0 == Seq::new(
            fields.len(),
            |i: int| spec_field_line(fields[i]),
        ).flatten(),
    decreases fields.len(),
{
    let lines = Seq::new(fields.len(), |i: int| spec_field_line(fields[i]));
    if fields.len() == 0 {
        assert(lines.flatten() == Seq::<char>::empty());
        assert(spec_struct_fields(fields)->Ok_0.0 =~= lines.flatten());
    } else {
        assert(spec_rust_to_c(fields[0].ty, fields[0].name) is Ok);
        assert forall|i: int| 0 <= i < fields.drop_first().len() implies (
        #[trigger] spec_rust_to_c(
            fields.drop_first()[i].ty,
            fields.drop_first()[i].name,
        )) is Ok by {
            assert(fields.drop_first()[i] == fields[i + 1]);
        }
        lemma_struct_members_in_order(fields.drop_first());
        let rest_lines = Seq::new(
            fields.drop_first().len(),
            |i: int| spec_field_line(fields.drop_first()[i]),
        );
        assert(lines.drop_first() =~= rest_lines);
        assert(lines.flatten() == lines.first() + lines.drop_first().flatten());
        assert(spec_struct_fields(fields)->Ok_0.0 == spec_field_line(fields[0])
            + spec_struct_fields(fields.drop_first())->Ok_0.0);
        assert(lines.first() == spec_field_line(fields[0]));
    }
}

/// A declaration that lacks its export marker is passed over silently, and
/// a pass leaves the backend state and the output store exactly as they
/// were — so running emission over it any number of times produces no
/// output each time.
pub proof fn lemma_unexported_is_skipped(
    item: ItemV,
    lib: Seq<char>,
    module: Seq<Seq<char>>,
    s: LangCV,
    o: Seq<(Seq<char>, Seq<char>)>,
)
    ensures
        !spec_attr_check(item.attrs, AttrCheck::NoMangle) ==> spec_parse_fn(item, lib, module)
            == EmitOutcome::Skip,
        !spec_attr_check(item.attrs, AttrCheck::ReprC) ==> spec_parse_enum(item, lib, module)
            == EmitOutcome::Skip,
        !spec_attr_check(item.attrs, AttrCheck::ReprC) ==> spec_parse_struct(item, lib, module)
            == EmitOutcome::Skip,
        spec_apply_emit(s, o, EmitOutcome::Skip) == (s, o),
{
}

proof fn lemma_edges_for_contains(
    keys: Seq<Seq<char>>,
    decls: Seq<(Seq<char>, Seq<char>)>,
    i: int,
    ds: Seq<Seq<char>>,
    k: int,
    j: int,
)
    requires
        0 <= k < ds.len(),
        spec_get_entry(decls, ds[k]) matches Some(h) && h != keys[i] && find_str(keys, h) == j
            && j != -1,
    ensures
        spec_edges_for(keys, decls, i, ds).contains((j as usize, i as usize)),
    decreases ds.len(),
{
    let e = (j as usize, i as usize);
    if k == 0 {
        assert(spec_edges_for(keys, decls, i, ds)[0] == e);
    } else {
        assert(ds.drop_first()[k - 1] == ds[k]);
        lemma_edges_for_contains(keys, decls, i, ds.drop_first(), k - 1, j);
        let head = (match spec_get_entry(decls, ds[0]) {
            Some(h) => if h == keys[i] {
                Seq::<(usize, usize)>::empty()
            } else {
                if find_str(keys, h) == -1 {
                    Seq::<(usize, usize)>::empty()
                } else {
                    seq![(find_str(keys, h) as usize, i as usize)]
                }
            },
            None => Seq::<(usize, usize)>::empty(),
        });
        let w = choose|w: int|
            0 <= w < spec_edges_for(keys, decls, i, ds.drop_first()).len()
                && #[trigger] spec_edges_for(keys, decls, i, ds.drop_first())[w] == e;
        assert(spec_edges_for(keys, decls, i, ds)[head.len() + w] == e);
    }
}

proof fn lemma_edges_upto_contains(
    keys: Seq<Seq<char>>,
    deps: Seq<(Seq<char>, Seq<Seq<char>>)>,
    decls: Seq<(Seq<char>, Seq<char>)>,
    n: int,
    i: int,
    e: (usize, usize),
)
    requires
        0 <= i < n,
        spec_get_entry(deps, keys[i]) matches Some(ds) && spec_edges_for(
            keys,
            decls,
            i,
            ds,
        ).contains(e),
    ensures
        spec_edges_upto(keys, deps, decls, n).contains(e),
    decreases n,
{
    let block = (match spec_get_entry(deps, keys[n - 1]) {
        Some(ds) => spec_edges_for(keys, decls, n - 1, ds),
        None => Seq::<(usize, usize)>::empty(),
    });
    if i == n - 1 {
        let ds = spec_get_entry(deps, keys[i])->Some_0;
        let w = choose|w: int|
            0 <= w < spec_edges_for(keys, decls, i, ds).len() && #[trigger] spec_edges_for(
                keys,
                decls,
                i,
                ds,
            )[w] == e;
        assert(spec_edges_upto(keys, deps, decls, n)[spec_edges_upto(
            keys,
            deps,
            decls,
            n - 1,
        ).len() + w] == e);
    } else {
        lemma_edges_upto_contains(keys, deps, decls, n - 1, i, e);
        let w = choose|w: int|
            0 <= w < spec_edges_upto(keys, deps, decls, n - 1).len() && #[trigger] spec_edges_upto(
                keys,
                deps,
                decls,
                n - 1,
            )[w] == e;
        assert(spec_edges_upto(keys, deps, decls, n)[w] == e);
    }
}

/// When the header numbered `i` records a type name that the declaration
/// table resolves to the different header numbered `j`, the dependency
/// graph holds the edge from `j` to `i`.
pub proof fn lemma_dependency_edge(
    keys: Seq<Seq<char>>,
    deps: Seq<(Seq<char>, Seq<Seq<char>>)>,
    decls: Seq<(Seq<char>, Seq<char>)>,
    i: int,
    k: int,
    j: int,
)
    requires
        0 <= i < keys.len(),
        spec_get_entry(deps, keys[i]) matches Some(ds) && 0 <= k < ds.len() && (spec_get_entry(
            decls,
            ds[k],
        ) matches Some(h) && h != keys[i] && find_str(keys, h) == j && j != -1),
    ensures
        spec_edges(keys, deps, decls).contains((j as usize, i as usize)),
{
    let ds = spec_get_entry(deps, keys[i])->Some_0;
    lemma_edges_for_contains(keys, decls, i, ds, k, j);
    lemma_edges_upto_contains(keys, deps, decls, keys.len() as int, i, (j as usize, i as usize));
}

/// In a topological order every edge's source is placed before its target:
/// the include line of a header a type comes from precedes the include line
/// of every header that uses the type.
pub proof fn lemma_topo_order_respects_edges(
    n: int,
    edges: Seq<(usize, usize)>,
    order: Seq<usize>,
    pa: int,
    pb: int,
)
    requires
        is_topo_order(n, edges, order),
        0 <= pa < n,
        0 <= pb < n,
        edges.contains((order[pa], order[pb])),
    ensures
        pa < pb,
{
    if pb <= pa {
        assert(!edges.contains((order[pa], order[pb])));
    }
}

/// Guard sanitisation only ever keeps characters from `[A-Za-z0-9_]`, and
/// an identifier made of such characters passes through unchanged.
pub proof fn lemma_sanitise_guard_chars(s: Seq<char>)
    ensures
        forall|i: int| 0 <= i < spec_sanitise(s).len() ==> is_guard_char(
            #[trigger] spec_sanitise(s)[i],
        ),
        (forall|i: int| 0 <= i < s.len() ==> is_guard_char(#[trigger] s[i])) ==> spec_sanitise(s)
            == s,
    decreases s.len(),
{
    reveal(Seq::filter);
    broadcast use vstd::prelude::Seq::lemma_filter_pred;

    if s.len() > 0 {
        lemma_sanitise_guard_chars(s.drop_last());
        if forall|i: int| 0 <= i < s.len() ==> is_guard_char(#[trigger] s[i]) {
            assert(forall|i: int|
                0 <= i < s.drop_last().len() ==> is_guard_char(#[trigger] s.drop_last()[i]));
            assert(is_guard_char(s.last()));
            assert(spec_sanitise(s) == spec_sanitise(s.drop_last()).push(s.last()));
            assert(s.drop_last().push(s.last()) =~= s);
        }
    }
}

} // verus!
