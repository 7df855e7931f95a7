//! Items shared by every target language: string utilities, the attribute
//! inspector, the per-header output store and argument-list preparation.

use vstd::prelude::*;
use vstd::string::*;

use crate::ast::{args_view, attrs_view, Arg, ArgV, Attribute, AttributeV, AttrValue, AttrValueV,
    Mutability, TyExpr, TyExprV};
use crate::{Error, ErrorV, Level};

verus! {

/// Relies on `String::push` of std: appends the given character to the end
/// of the string.
pub assume_specification[ String::push ](s: &mut String, c: char)
    ensures
        final(s)@ == old(s)@.push(c),
;

/// Whether two string slices hold the same characters.
pub fn str_eq(a: &str, b: &str) -> (r: bool)
    ensures
        r == (a@ == b@),
{
    let alen = a.unicode_len();
    let blen = b.unicode_len();
    if alen != blen {
        return false;
    }
    let mut i: usize = 0;
    while i < alen
        invariant
            alen == a@.len(),
            blen == b@.len(),
            alen == blen,
            i <= alen,
            forall|j: int| 0 <= j < i ==> a@[j] == b@[j],
        decreases alen - i,
    {
        if a.get_char(i) != b.get_char(i) {
            return false;
        }
        i += 1;
    }
    proof {
        assert(a@ =~= b@);
    }
    true
}

/// Lexicographic order on character sequences, by code point.
pub open spec fn lex_le(a: Seq<char>, b: Seq<char>) -> bool
    decreases a.len(),
{
    if a.len() == 0 {
        true
    } else if b.len() == 0 {
        false
    } else if a[0] == b[0] {
        lex_le(a.drop_first(), b.drop_first())
    } else {
        (a[0] as u32) < (b[0] as u32)
    }
}

/// Whether `a` comes at or before `b` in lexicographic order.
pub fn str_le(a: &str, b: &str) -> (r: bool)
    ensures
        r == lex_le(a@, b@),
{
    let alen = a.unicode_len();
    let blen = b.unicode_len();
    let mut i: usize = 0;
    proof {
        assert(a@.skip(0) =~= a@);
        assert(b@.skip(0) =~= b@);
    }
    loop
        invariant
            alen == a@.len(),
            blen == b@.len(),
            i <= alen,
            i <= blen,
            lex_le(a@, b@) == lex_le(a@.skip(i as int), b@.skip(i as int)),
        decreases alen - i,
    {
        if i == alen {
            return true;
        }
        if i == blen {
            return false;
        }
        let ca = a.get_char(i);
        let cb = b.get_char(i);
        if ca == cb {
            proof {
                assert(a@.skip(i as int).drop_first() =~= a@.skip(i + 1));
                assert(b@.skip(i as int).drop_first() =~= b@.skip(i + 1));
            }
            i += 1;
        } else {
            return (ca as u32) < (cb as u32);
        }
    }
}

/// The marker checks an attribute scan can run.
#[derive(Clone, Copy, Debug, PartialEq, Eq, Structural)]
pub enum AttrCheck {
    /// Accept every attribute (used when only doc comments are wanted).
    Always,
    /// Look for the stable-linkage marker `#[no_mangle]`.
    NoMangle,
    /// Look for the C-layout marker `#[repr(C)]`.
    ReprC,
}

/// The attribute is the stable-linkage marker.
pub open spec fn spec_check_no_mangle(a: AttributeV) -> bool {
    a.name == "no_mangle"@ && a.value is Word
}

/// The attribute is the C-layout marker, with the literal `C` token as its
/// only argument.
pub open spec fn spec_check_repr_c(a: AttributeV) -> bool {
    match a.value {
        AttrValueV::List(l) => a.name == "repr"@ && l.len() == 1 && l[0] == "C"@,
        _ => false,
    }
}

pub open spec fn spec_attr_passes(c: AttrCheck, a: AttributeV) -> bool {
    match c {
        AttrCheck::Always => true,
        AttrCheck::NoMangle => spec_check_no_mangle(a),
        AttrCheck::ReprC => spec_check_repr_c(a),
    }
}

/// Some attribute of the list passes the chosen check.
pub open spec fn spec_attr_check(attrs: Seq<AttributeV>, c: AttrCheck) -> bool {
    exists|i: int| 0 <= i < attrs.len() && spec_attr_passes(c, attrs[i])
}

/// The doc-comment fragment an attribute contributes: the indent, the
/// comment text (which omits its trailing newline) and a newline.
pub open spec fn spec_doc_fragment(a: AttributeV, indent: Seq<char>) -> Option<Seq<char>> {
    match a.value {
        AttrValueV::NameValue(v) => if a.name == "doc"@ {
            Some(indent + v + "\n"@)
        } else {
            None
        },
        _ => None,
    }
}

/// The doc comment assembled from an attribute list, fragments in encounter
/// order.
pub open spec fn spec_docs(attrs: Seq<AttributeV>, indent: Seq<char>) -> Seq<char>
    decreases attrs.len(),
{
    if attrs.len() == 0 {
        Seq::empty()
    } else {
        spec_docs(attrs.drop_last(), indent) + (match spec_doc_fragment(attrs.last(), indent) {
            Some(s) => s,
            None => Seq::empty(),
        })
    }
}

/// Check the attribute is `#[no_mangle]`.
pub fn check_no_mangle(attr: &Attribute) -> (r: bool)
    ensures
        r == spec_check_no_mangle(attr@),
{
    match &attr.value {
        AttrValue::Word => str_eq(attr.name.as_str(), "no_mangle"),
        _ => false,
    }
}

/// Check the attribute is `#[repr(C)]`.
pub fn check_repr_c(attr: &Attribute) -> (r: bool)
    ensures
        r == spec_check_repr_c(attr@),
{
    match &attr.value {
        AttrValue::List(l) => l.len() == 1 && str_eq(l[0].as_str(), "C") && str_eq(
            attr.name.as_str(),
            "repr",
        ),
        _ => false,
    }
}

/// If the attribute is a docstring, indent it the required amount and return
/// it.
pub fn retrieve_docstring(attr: &Attribute, prepend: &str) -> (r: Option<String>)
    ensures
        match r {
            Some(s) => spec_doc_fragment(attr@, prepend@) == Some(s@),
            None => spec_doc_fragment(attr@, prepend@) is None,
        },
{
    match &attr.value {
        AttrValue::NameValue(v) => if str_eq(attr.name.as_str(), "doc") {
            let mut s = prepend.to_owned();
            s.append(v.as_str());
            s.append("\n");
            Some(s)
        } else {
            None
        },
        _ => None,
    }
}

fn attr_passes(attr: &Attribute, check: AttrCheck) -> (r: bool)
    ensures
        r == spec_attr_passes(check, attr@),
{
    match check {
        AttrCheck::Always => true,
        AttrCheck::NoMangle => check_no_mangle(attr),
        AttrCheck::ReprC => check_repr_c(attr),
    }
}

/// Loop through a list of attributes.
///
/// Reports whether at least one attribute passes the chosen check (usually
/// the C-layout or stable-linkage marker) and assembles the doc comment from
/// every docstring attribute, each fragment indented by `indent`.
pub fn parse_attr(attrs: &Vec<Attribute>, check: AttrCheck, indent: &str) -> (r: (bool, String))
    ensures
        r.0 == spec_attr_check(attrs_view(attrs@), check),
        r.1@ == spec_docs(attrs_view(attrs@), indent@),
{
    let mut check_passed = false;
    let mut retrieved_str = String::new();
    let ghost all = attrs_view(attrs@);
    let mut i: usize = 0;
    while i < attrs.len()
        invariant
            i <= attrs.len(),
            all == attrs_view(attrs@),
            all.len() == attrs.len(),
            check_passed == spec_attr_check(all.take(i as int), check),
            retrieved_str@ == spec_docs(all.take(i as int), indent@),
        decreases attrs.len() - i,
    {
        let attr = &attrs[i];
        // Don't let a later attribute reset a check that already passed.
        if !check_passed {
            check_passed = attr_passes(attr, check);
        }
        if let Some(string) = retrieve_docstring(attr, indent) {
            retrieved_str.append(string.as_str());
        }
        proof {
            let prev = all.take(i as int);
            let cur = all.take(i + 1);
            assert(cur.drop_last() =~= prev);
            assert(cur.last() == attr@);
            if spec_doc_fragment(attr@, indent@) is None {
                assert(spec_docs(prev, indent@) + Seq::<char>::empty() =~= spec_docs(
                    prev,
                    indent@,
                ));
            }
            assert(spec_attr_check(cur, check) == (spec_attr_check(prev, check)
                || spec_attr_passes(check, attr@))) by {
                if spec_attr_check(prev, check) {
                    let w = choose|j: int|
                        0 <= j < prev.len() && spec_attr_passes(check, prev[j]);
                    assert(spec_attr_passes(check, cur[w]));
                }
                if spec_attr_passes(check, attr@) {
                    assert(spec_attr_passes(check, cur[i as int]));
                }
                if spec_attr_check(cur, check) && !spec_attr_passes(check, attr@) {
                    let w = choose|j: int|
                        0 <= j < cur.len() && spec_attr_passes(check, cur[j]);
                    assert(w < i);
                    assert(spec_attr_passes(check, prev[w]));
                }
            }
        }
        i += 1;
    }
    proof {
        assert(all.take(attrs.len() as int) =~= all);
    }
    (check_passed, retrieved_str)
}

/// The argument is `user_data: *mut c_void`.
pub open spec fn spec_is_user_data_arg(a: ArgV) -> bool {
    &&& a.pat.text == "user_data"@
    &&& match a.ty {
        TyExprV::Ptr(inner, m) => m == Mutability::Mutable && match *inner {
            TyExprV::Path(segs) => segs.len() == 1 && segs[0] == "c_void"@,
            _ => false,
        },
        _ => false,
    }
}

/// The argument is `result: *const FfiResult`.
pub open spec fn spec_is_result_arg(a: ArgV) -> bool {
    &&& a.pat.text == "result"@
    &&& match a.ty {
        TyExprV::Ptr(inner, m) => m == Mutability::Immutable && match *inner {
            TyExprV::Path(segs) => segs.len() == 1 && segs[0] == "FfiResult"@,
            _ => false,
        },
        _ => false,
    }
}

fn ty_is_single_path_ptr(ty: &TyExpr, m: Mutability, seg: &str) -> (r: bool)
    ensures
        r == match ty@ {
            TyExprV::Ptr(inner, m2) => m2 == m && match *inner {
                TyExprV::Path(segs) => segs.len() == 1 && segs[0] == seg@,
                _ => false,
            },
            _ => false,
        },
{
    match ty {
        TyExpr::Ptr(inner, m2) => {
            let c1 = *m2 == m;
            assert(c1 == (ty@->Ptr_1 == m));
            let c2 = match &**inner {
                TyExpr::Path(segs) => {
                    assert((**inner)@ is Path);
                    segs.len() == 1 && str_eq(segs[0].as_str(), seg)
                },
                _ => false,
            };
            c1 && c2
        },
        _ => false,
    }
}

/// Check the function argument is `user_data: *mut c_void`.
pub fn is_user_data_arg(arg: &Arg) -> (r: bool)
    ensures
        r == spec_is_user_data_arg(arg@),
{
    str_eq(arg.pat.text.as_str(), "user_data") && ty_is_single_path_ptr(
        &arg.ty,
        Mutability::Mutable,
        "c_void",
    )
}

/// Check the function argument is `result: *const FfiResult`.
pub fn is_result_arg(arg: &Arg) -> (r: bool)
    ensures
        r == spec_is_result_arg(arg@),
{
    str_eq(arg.pat.text.as_str(), "result") && ty_is_single_path_ptr(
        &arg.ty,
        Mutability::Immutable,
        "FfiResult",
    )
}

/// The message rejecting an argument that is not a plain by-value binding.
pub open spec fn spec_fn_args_error_msg(pat: Seq<char>, name: Seq<char>) -> Seq<char> {
    "cheddar only supports by-value arguments:\n    incorrect argument `"@ + pat
        + "` in function definition `"@ + name + "`"@
}

/// The (name, type) pairs recovered from an argument list, or the rejection
/// of the first argument that is not a by-value identifier binding.
pub open spec fn spec_fn_args(inputs: Seq<ArgV>, name: Seq<char>) -> Result<
    Seq<(Seq<char>, TyExprV)>,
    ErrorV,
>
    decreases inputs.len(),
{
    if inputs.len() == 0 {
        Ok(Seq::empty())
    } else if !inputs[0].pat.by_value_ident {
        Err(
            ErrorV {
                level: Level::Error,
                span: None,
                message: spec_fn_args_error_msg(inputs[0].pat.text, name),
            },
        )
    } else {
        match spec_fn_args(inputs.drop_first(), name) {
            Ok(rest) => Ok(seq![(inputs[0].pat.text, inputs[0].ty)] + rest),
            Err(e) => Err(e),
        }
    }
}

/// View of a recovered argument list.
pub open spec fn arg_pairs_view(v: Seq<(String, TyExpr)>) -> Seq<(Seq<char>, TyExprV)> {
    Seq::new(v.len(), |i: int| (v[i].0@, v[i].1@))
}

/// Transform function arguments into (name, type) pairs.
///
/// Only plain by-value identifier bindings carry over to C; any other
/// pattern rejects the whole list.
pub fn fn_args(inputs: Vec<Arg>, name: &str) -> (r: Result<Vec<(String, TyExpr)>, Error>)
    ensures
        match r {
            Ok(v) => spec_fn_args(args_view(inputs@), name@) == Ok::<_, ErrorV>(
                arg_pairs_view(v@),
            ),
            Err(e) => spec_fn_args(args_view(inputs@), name@) == Err::<Seq<(Seq<char>, TyExprV)>,
                _,
            >(e@),
        },
{
    let ghost orig = args_view(inputs@);
    let mut rest = inputs;
    let mut out: Vec<(String, TyExpr)> = Vec::new();
    proof {
        if let Ok(r2) = spec_fn_args(args_view(rest@), name@) {
            assert(arg_pairs_view(out@) + r2 =~= r2);
        }
    }
    loop
        invariant
            orig == args_view(inputs@),
            spec_fn_args(orig, name@) == match spec_fn_args(args_view(rest@), name@) {
                Ok(r2) => Ok::<_, ErrorV>(arg_pairs_view(out@) + r2),
                Err(e) => Err(e),
            },
        decreases rest.len(),
    {
        if rest.len() == 0 {
            proof {
                assert(arg_pairs_view(out@) + Seq::<(Seq<char>, TyExprV)>::empty() =~= arg_pairs_view(
                    out@,
                ));
            }
            return Ok(out);
        }
        let ghost prev_rest = rest@;
        let arg = rest.remove(0);
        let ghost pat_v = arg.pat.text@;
        let ghost ty_v = arg.ty@;
        let ghost by_value = arg.pat.by_value_ident;
        proof {
            crate::ast::lemma_args_view(prev_rest);
            crate::ast::lemma_args_view(rest@);
            assert(args_view(rest@) =~= args_view(prev_rest).drop_first());
            assert(args_view(prev_rest)[0] == ArgV { pat: arg.pat@, ty: ty_v });
        }
        if !arg.pat.by_value_ident {
            let mut message = "cheddar only supports by-value arguments:\n    incorrect argument `"
                .to_owned();
            message.append(arg.pat.text.as_str());
            message.append("` in function definition `");
            message.append(name);
            message.append("`");
            proof {
                assert(message@ =~= spec_fn_args_error_msg(pat_v, name@));
            }
            return Err(Error { level: Level::Error, span: None, message });
        }
        let ghost prev_out = out@;
        let pair_name = arg.pat.text;
        out.push((pair_name, arg.ty));
        proof {
            assert(arg_pairs_view(out@) =~= arg_pairs_view(prev_out) + seq![(pat_v, ty_v)]);
            if let Ok(r2) = spec_fn_args(args_view(rest@), name@) {
                assert(arg_pairs_view(prev_out) + (seq![(pat_v, ty_v)] + r2) =~= arg_pairs_view(
                    out@,
                ) + r2);
            }
        }
    }
}

/// Index of the first entry of an association list with the given key, or
/// `-1` when the key is absent.
pub open spec fn find_key<T>(s: Seq<(Seq<char>, T)>, k: Seq<char>) -> int
    decreases s.len(),
{
    if s.len() == 0 {
        -1
    } else if s[0].0 == k {
        0
    } else {
        let r = find_key(s.drop_first(), k);
        if r == -1 {
            -1
        } else {
            r + 1
        }
    }
}

pub proof fn lemma_find_key<T>(s: Seq<(Seq<char>, T)>, k: Seq<char>)
    ensures
        find_key(s, k) == -1 ==> forall|i: int| 0 <= i < s.len() ==> (#[trigger] s[i]).0 != k,
        find_key(s, k) != -1 ==> 0 <= find_key(s, k) < s.len() && s[find_key(s, k)].0 == k
            && forall|i: int| 0 <= i < find_key(s, k) ==> (#[trigger] s[i]).0 != k,
    decreases s.len(),
{
    if s.len() > 0 && s[0].0 != k {
        lemma_find_key(s.drop_first(), k);
        assert forall|i: int| 1 <= i < s.len() implies s.drop_first()[i - 1] == s[i] by {}
    }
}

/// The entry list after appending `v` to the entry for `k`, the entry being
/// created at the end when the key is new.
pub open spec fn spec_append_entry(
    s: Seq<(Seq<char>, Seq<char>)>,
    k: Seq<char>,
    v: Seq<char>,
) -> Seq<(Seq<char>, Seq<char>)> {
    let i = find_key(s, k);
    if i == -1 {
        s.push((k, v))
    } else {
        s.update(i, (k, s[i].1 + v))
    }
}

/// The entry list after replacing the entry for `k` with `v`, the entry
/// being created at the end when the key is new.
pub open spec fn spec_set_entry(
    s: Seq<(Seq<char>, Seq<char>)>,
    k: Seq<char>,
    v: Seq<char>,
) -> Seq<(Seq<char>, Seq<char>)> {
    let i = find_key(s, k);
    if i == -1 {
        s.push((k, v))
    } else {
        s.update(i, (k, v))
    }
}

/// The value an association list holds for `k`, if any.
pub open spec fn spec_get_entry<T>(s: Seq<(Seq<char>, T)>, k: Seq<char>) -> Option<T> {
    let i = find_key(s, k);
    if i == -1 {
        None
    } else {
        Some(s[i].1)
    }
}

/// The files a translation run produces: per-header accumulated text, keyed
/// by header path, in order of first append.
pub struct Outputs {
    entries: Vec<(String, String)>,
}

impl View for Outputs {
    type V = Seq<(Seq<char>, Seq<char>)>;

    closed spec fn view(&self) -> Seq<(Seq<char>, Seq<char>)> {
        Seq::new(self.entries@.len(), |i: int| (self.entries@[i].0@, self.entries@[i].1@))
    }
}

impl Outputs {
    /// An output store with no headers yet.
    pub fn new() -> (r: Self)
        ensures
            r@ == Seq::<(Seq<char>, Seq<char>)>::empty(),
    {
        let r = Outputs { entries: Vec::new() };
        proof {
            assert(r@ =~= Seq::<(Seq<char>, Seq<char>)>::empty());
        }
        r
    }

    /// How many headers hold text.
    pub fn len(&self) -> (r: usize)
        ensures
            r == self@.len(),
    {
        self.entries.len()
    }

    /// The header path of the entry at `i`.
    pub fn key_at(&self, i: usize) -> (r: &String)
        requires
            i < self@.len(),
        ensures
            r@ == self@[i as int].0,
    {
        &self.entries[i].0
    }

    /// The accumulated text of the entry at `i`.
    pub fn val_at(&self, i: usize) -> (r: &String)
        requires
            i < self@.len(),
        ensures
            r@ == self@[i as int].1,
    {
        &self.entries[i].1
    }

    /// Replace the text of the entry at `i`.
    pub fn set_val_at(&mut self, i: usize, v: String)
        requires
            i < old(self)@.len(),
        ensures
            final(self)@ == old(self)@.update(i as int, (old(self)@[i as int].0, v@)),
    {
        let k = self.entries[i].0.clone();
        let ghost prev = self@;
        self.entries[i] = (k, v);
        proof {
            assert(self@ =~= prev.update(i as int, (prev[i as int].0, v@)));
        }
    }

    fn position(&self, key: &str) -> (r: Option<usize>)
        ensures
            match r {
                Some(i) => find_key(self@, key@) == i && i < self@.len(),
                None => find_key(self@, key@) == -1,
            },
    {
        let mut i: usize = 0;
        while i < self.entries.len()
            invariant
                i <= self@.len(),
                self@.len() == self.entries@.len(),
                forall|j: int| 0 <= j < i ==> (#[trigger] self@[j]).0 != key@,
            decreases self.entries@.len() - i,
        {
            if str_eq(self.entries[i].0.as_str(), key) {
                proof {
                    lemma_find_key(self@, key@);
                    let f = find_key(self@, key@);
                    assert(self@[i as int].0 == key@);
                    if f == -1 {
                        assert(self@[i as int].0 != key@);
                    } else if f < i {
                        assert(self@[f].0 != key@);
                        assert(self@[f].0 == key@);
                    } else if f > i {
                        assert(self@[i as int].0 != key@);
                    }
                }
                return Some(i);
            }
            i += 1;
        }
        proof {
            lemma_find_key(self@, key@);
            if find_key(self@, key@) != -1 {
                assert(self@[find_key(self@, key@)].0 != key@);
                assert(self@[find_key(self@, key@)].0 == key@);
            }
        }
        None
    }

    /// Append text to the header at `key`, creating the entry when the
    /// header has no text yet.
    pub fn append(&mut self, key: &str, text: &str)
        ensures
            final(self)@ == spec_append_entry(old(self)@, key@, text@),
    {
        let ghost prev = self@;
        match self.position(key) {
            Some(i) => {
                let mut s = self.entries[i].1.clone();
                s.append(text);
                self.set_val_at(i, s);
                proof {
                    lemma_find_key(prev, key@);
                    assert(self@ =~= spec_append_entry(prev, key@, text@));
                }
            },
            None => {
                self.entries.push((key.to_owned(), text.to_owned()));
                proof {
                    assert(self@ =~= prev.push((key@, text@)));
                }
            },
        }
    }

    /// Replace the text of the header at `key`, creating the entry when the
    /// header has no text yet.
    pub fn set(&mut self, key: &str, text: String)
        ensures
            final(self)@ == spec_set_entry(old(self)@, key@, text@),
    {
        let ghost prev = self@;
        match self.position(key) {
            Some(i) => {
                self.set_val_at(i, text);
                proof {
                    lemma_find_key(prev, key@);
                    assert(self@ =~= spec_set_entry(prev, key@, text@));
                }
            },
            None => {
                self.entries.push((key.to_owned(), text));
                proof {
                    assert(self@ =~= prev.push((key@, text@)));
                }
            },
        }
    }

    /// The text accumulated for a header, if any.
    pub fn get(&self, key: &str) -> (r: Option<&String>)
        ensures
            match r {
                Some(s) => spec_get_entry(self@, key@) == Some(s@),
                None => spec_get_entry(self@, key@) is None,
            },
    {
        match self.position(key) {
            Some(i) => Some(&self.entries[i].1),
            None => None,
        }
    }
}

} // verus!
