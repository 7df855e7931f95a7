//! The C type tree the translator produces, its rendering as C source text
//! and the user-defined type names a type refers to.

use vstd::prelude::*;
use vstd::string::*;

use crate::ast::strs_view;
use crate::common::str_eq;

verus! {

/// Constness of a C pointer.
#[derive(Clone, Copy, Debug, PartialEq, Eq, Structural)]
pub enum CPtrType {
    Const,
    Mutable,
}

/// A C type tree.
#[derive(Debug)]
pub enum CType {
    /// `void`.
    Void,
    /// A primitive or fixed-width C type name.
    Native(String),
    /// An opaque user-defined type, trusted to be declared elsewhere.
    Mapping(String),
    /// A pointer to an inner type.
    Ptr(Box<CType>, CPtrType),
    /// A function-pointer declarator: `ret (*inner)(args)`, where `inner` is
    /// either a plain name or the rest of a function declaration.
    FnDecl { inner: String, args: Vec<CTypeNamed>, return_type: Box<CType> },
}

/// A C type paired with the declarator name it is rendered against; the name
/// may be empty for purely anonymous positions.
#[derive(Debug)]
pub struct CTypeNamed(pub String, pub CType);

pub enum CTyV {
    Void,
    Native(Seq<char>),
    Mapping(Seq<char>),
    Ptr(Box<CTyV>, CPtrType),
    FnDecl { inner: Seq<char>, args: Seq<CTyNamedV>, ret: Box<CTyV> },
}

pub struct CTyNamedV {
    pub name: Seq<char>,
    pub ty: CTyV,
}

/// View of a list of named C types; recursive so that termination of the
/// mutually recursive views is visible to the checker.
pub open spec fn cnamed_list_view(v: Seq<CTypeNamed>) -> Seq<CTyNamedV>
    decreases v,
{
    if v.len() == 0 {
        Seq::empty()
    } else {
        cnamed_list_view(v.drop_last()).push(v.last().view())
    }
}

pub proof fn lemma_cnamed_list_view(v: Seq<CTypeNamed>)
    ensures
        cnamed_list_view(v).len() == v.len(),
        forall|i: int| 0 <= i < v.len() ==> #[trigger] cnamed_list_view(v)[i] == v[i]@,
    decreases v.len(),
{
    if v.len() > 0 {
        lemma_cnamed_list_view(v.drop_last());
        assert(cnamed_list_view(v) == cnamed_list_view(v.drop_last()).push(v.last()@));
        assert forall|i: int| 0 <= i < v.len() implies #[trigger] cnamed_list_view(v)[i]
            == v[i]@ by {
            if i < v.len() - 1 {
                assert(v.drop_last()[i] == v[i]);
            }
        }
    }
}

impl View for CType {
    type V = CTyV;

    open spec fn view(&self) -> CTyV
        decreases self,
    {
        match self {
            CType::Void => CTyV::Void,
            CType::Native(n) => CTyV::Native(n@),
            CType::Mapping(n) => CTyV::Mapping(n@),
            CType::Ptr(inner, c) => CTyV::Ptr(Box::new((**inner).view()), *c),
            CType::FnDecl { inner, args, return_type } => CTyV::FnDecl {
                inner: inner@,
                args: cnamed_list_view(args@),
                ret: Box::new((**return_type).view()),
            },
        }
    }
}

impl View for CTypeNamed {
    type V = CTyNamedV;

    open spec fn view(&self) -> CTyNamedV
        decreases self,
    {
        CTyNamedV { name: self.0@, ty: self.1.view() }
    }
}

/// The C source text a type renders to when no declarator name is involved
/// (the name of a function declarator is already part of the tree).
pub open spec fn spec_render(t: CTyV) -> Seq<char>
    decreases t,
{
    match t {
        CTyV::Void => "void"@,
        CTyV::Native(n) => n,
        CTyV::Mapping(n) => n,
        CTyV::Ptr(inner, c) => spec_render(*inner) + (if c is Const {
            " const*"@
        } else {
            "*"@
        }),
        CTyV::FnDecl { inner, args, ret } => spec_render(*ret) + " (*"@ + inner + ")("@
            + spec_render_args(args) + ")"@,
    }
}

/// The argument list of a function declarator, members joined with `", "`.
pub open spec fn spec_render_args(args: Seq<CTyNamedV>) -> Seq<char>
    decreases args,
{
    if args.len() == 0 {
        Seq::empty()
    } else if args.len() == 1 {
        spec_render_named(args[0])
    } else {
        spec_render_named(args[0]) + ", "@ + spec_render_args(args.drop_first())
    }
}

/// The C source text of a type together with its declarator name: the name
/// goes to the right of the type, except for function declarators, which
/// already place their name, and empty names, which leave the bare type.
pub open spec fn spec_render_named(t: CTyNamedV) -> Seq<char>
    decreases t,
{
    match t.ty {
        CTyV::FnDecl { inner, args, ret } => spec_render(t.ty),
        _ => if t.name.len() == 0 {
            spec_render(t.ty)
        } else {
            spec_render(t.ty) + " "@ + t.name
        },
    }
}

pub proof fn lemma_render_args_push(args: Seq<CTyNamedV>, x: CTyNamedV)
    ensures
        spec_render_args(args.push(x)) == if args.len() == 0 {
            spec_render_named(x)
        } else {
            spec_render_args(args) + ", "@ + spec_render_named(x)
        },
    decreases args.len(),
{
    let p = args.push(x);
    if args.len() == 0 {
        assert(p[0] == x);
    } else {
        assert(p[0] == args[0]);
        assert(p.drop_first() =~= args.drop_first().push(x));
        lemma_render_args_push(args.drop_first(), x);
        if args.len() > 1 {
            assert(spec_render_named(args[0]) + ", "@ + (spec_render_args(args.drop_first())
                + ", "@ + spec_render_named(x)) =~= (spec_render_named(args[0]) + ", "@
                + spec_render_args(args.drop_first())) + ", "@ + spec_render_named(x));
        }
    }
}

/// The names of the user-defined types a C type refers to, in rendering
/// order.
pub open spec fn spec_deps(t: CTyV) -> Seq<Seq<char>>
    decreases t,
{
    match t {
        CTyV::Void => Seq::empty(),
        CTyV::Native(n) => Seq::empty(),
        CTyV::Mapping(n) => seq![n],
        CTyV::Ptr(inner, c) => spec_deps(*inner),
        CTyV::FnDecl { inner, args, ret } => spec_deps_args(args) + spec_deps(*ret),
    }
}

pub open spec fn spec_deps_args(args: Seq<CTyNamedV>) -> Seq<Seq<char>>
    decreases args,
{
    if args.len() == 0 {
        Seq::empty()
    } else {
        spec_deps(args[0].ty) + spec_deps_args(args.drop_first())
    }
}

pub proof fn lemma_deps_args_push(args: Seq<CTyNamedV>, x: CTyNamedV)
    ensures
        spec_deps_args(args.push(x)) == spec_deps_args(args) + spec_deps(x.ty),
    decreases args.len(),
{
    let p = args.push(x);
    if args.len() == 0 {
        assert(p[0] == x);
        assert(p.drop_first() =~= Seq::<CTyNamedV>::empty());
        assert(spec_deps_args(p.drop_first()) == Seq::<Seq<char>>::empty());
        assert(spec_deps_args(p) == spec_deps(x.ty) + spec_deps_args(p.drop_first()));
        assert(spec_deps(x.ty) + Seq::<Seq<char>>::empty() =~= spec_deps(x.ty));
        assert(Seq::<Seq<char>>::empty() + spec_deps(x.ty) =~= spec_deps(x.ty));
    } else {
        assert(p[0] == args[0]);
        assert(p.drop_first() =~= args.drop_first().push(x));
        lemma_deps_args_push(args.drop_first(), x);
        assert(spec_deps(args[0].ty) + (spec_deps_args(args.drop_first()) + spec_deps(x.ty))
            =~= (spec_deps(args[0].ty) + spec_deps_args(args.drop_first())) + spec_deps(x.ty));
    }
}

pub(crate) fn render_named_list(args: &Vec<CTypeNamed>) -> (r: String)
    ensures
        r@ == spec_render_args(cnamed_list_view(args@)),
    decreases args,
{
    proof {
        lemma_cnamed_list_view(args@);
    }
    let ghost all = cnamed_list_view(args@);
    let mut s = String::new();
    let mut i: usize = 0;
    while i < args.len()
        invariant
            i <= args.len(),
            all == cnamed_list_view(args@),
            all.len() == args.len(),
            forall|j: int| 0 <= j < args@.len() ==> #[trigger] all[j] == args@[j]@,
            s@ == spec_render_args(all.take(i as int)),
        decreases args.len() - i,
    {
        proof {
            assert(decreases_to!(args => args@[i as int]));
            assert(all.take(i + 1) =~= all.take(i as int).push(all[i as int]));
            lemma_render_args_push(all.take(i as int), all[i as int]);
        }
        if i > 0 {
            s.append(", ");
        }
        let part = args[i].render();
        s.append(part.as_str());
        i += 1;
    }
    proof {
        assert(all.take(args@.len() as int) =~= all);
    }
    s
}

pub(crate) fn deps_named_list(args: &Vec<CTypeNamed>) -> (r: Vec<String>)
    ensures
        strs_view(r@) == spec_deps_args(cnamed_list_view(args@)),
    decreases args,
{
    proof {
        lemma_cnamed_list_view(args@);
    }
    let ghost all = cnamed_list_view(args@);
    let mut r: Vec<String> = Vec::new();
    proof {
        assert(strs_view(r@) =~= Seq::<Seq<char>>::empty());
    }
    let mut i: usize = 0;
    while i < args.len()
        invariant
            i <= args.len(),
            all == cnamed_list_view(args@),
            all.len() == args.len(),
            forall|j: int| 0 <= j < args@.len() ==> #[trigger] all[j] == args@[j]@,
            strs_view(r@) == spec_deps_args(all.take(i as int)),
        decreases args.len() - i,
    {
        proof {
            assert(decreases_to!(args => args@[i as int]));
            assert(all.take(i + 1) =~= all.take(i as int).push(all[i as int]));
            lemma_deps_args_push(all.take(i as int), all[i as int]);
        }
        let ghost prev = r@;
        let mut d = args[i].1.dependencies();
        r.append(&mut d);
        proof {
            assert(strs_view(r@) =~= strs_view(prev) + spec_deps(all[i as int].ty));
        }
        i += 1;
    }
    proof {
        assert(all.take(args@.len() as int) =~= all);
    }
    r
}

impl CType {
    /// Render the type as C source text.
    pub fn render(&self) -> (r: String)
        ensures
            r@ == spec_render(self@),
        decreases self,
    {
        match self {
            CType::Void => "void".to_owned(),
            CType::Native(n) => n.clone(),
            CType::Mapping(n) => n.clone(),
            CType::Ptr(inner, c) => {
                let mut s = (**inner).render();
                match c {
                    CPtrType::Const => s.append(" const*"),
                    CPtrType::Mutable => s.append("*"),
                }
                s
            },
            CType::FnDecl { inner, args, return_type } => {
                let mut s = (**return_type).render();
                s.append(" (*");
                s.append(inner.as_str());
                s.append(")(");
                let list = render_named_list(args);
                s.append(list.as_str());
                s.append(")");
                s
            },
        }
    }

    /// The user-defined type names this type refers to, in rendering order.
    pub fn dependencies(&self) -> (r: Vec<String>)
        ensures
            strs_view(r@) == spec_deps(self@),
        decreases self,
    {
        match self {
            CType::Void => {
                let r = Vec::new();
                proof {
                    assert(strs_view(r@) =~= Seq::<Seq<char>>::empty());
                }
                r
            },
            CType::Native(n) => {
                let r = Vec::new();
                proof {
                    assert(strs_view(r@) =~= Seq::<Seq<char>>::empty());
                }
                r
            },
            CType::Mapping(n) => {
                let mut r = Vec::new();
                r.push(n.clone());
                proof {
                    assert(strs_view(r@) =~= seq![n@]);
                }
                r
            },
            CType::Ptr(inner, c) => (**inner).dependencies(),
            CType::FnDecl { inner, args, return_type } => {
                let mut r = deps_named_list(args);
                let ghost prev = r@;
                let mut d = (**return_type).dependencies();
                r.append(&mut d);
                proof {
                    assert(strs_view(r@) =~= strs_view(prev) + spec_deps(return_type@));
                }
                r
            },
        }
    }
}

impl CTypeNamed {
    /// Render the type together with its declarator name.
    pub fn render(&self) -> (r: String)
        ensures
            r@ == spec_render_named(self@),
        decreases self,
    {
        match &self.1 {
            CType::FnDecl { inner, args, return_type } => self.1.render(),
            _ => {
                if self.0.as_str().is_empty() {
                    self.1.render()
                } else {
                    let mut s = self.1.render();
                    s.append(" ");
                    s.append(self.0.as_str());
                    s
                }
            },
        }
    }
}

} // verus!
