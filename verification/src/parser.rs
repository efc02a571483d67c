//! The collector: lowers decorated declarations into the interop AST,
//! enforcing the language restrictions, the naming rules and the audit of
//! every attribute bag.

use crate::ast::type_eq;
use crate::ast::type_has_lifetime;
use crate::ast::Attribute;
use crate::ast::RawAttr;
use crate::ast::CapturedArg;
use crate::ast::Diagnostic;
use crate::ast::Function;
use crate::ast::MethodSelf;
use crate::ast::OperationKind;
use crate::ast::Path;
use crate::ast::PathArguments;
use crate::ast::PathSegment;
use crate::ast::Span;
use crate::ast::Type;
use crate::attrs::accessor_marks;
use crate::attrs::first_from;
use crate::attrs::first_match;
use crate::attrs::BindgenAttr;
use crate::attrs::BindgenAttrs;
use crate::decl::FnArg;
use crate::decl::FnDecl;
use crate::text::clone_string_vec;
use crate::text::str_eq;
use vstd::prelude::*;
use vstd::string::StringExecFns;

verus! {

/// Whether a lifetime occurs in one parameter.
pub open spec fn fn_arg_has_lifetime(a: FnArg) -> bool {
    match a {
        FnArg::Captured { name, ty } => type_has_lifetime(ty),
        FnArg::SelfValue => false,
        FnArg::SelfRef { mutable, lifetime } => lifetime,
        FnArg::IgnoredArg => false,
    }
}

/// Whether a lifetime occurs anywhere in a signature.
pub open spec fn fn_decl_has_lifetime(d: FnDecl) -> bool {
    (exists|i: int| 0 <= i < d.inputs@.len() && fn_arg_has_lifetime(#[trigger] d.inputs@[i])) || (
    d.output matches Some(t) && type_has_lifetime(t))
}

/// How many of the parameters carry a lifetime.
pub open spec fn lifetime_arg_count(inputs: Seq<FnArg>) -> int
    decreases inputs.len(),
{
    if inputs.len() == 0 {
        0
    } else {
        lifetime_arg_count(inputs.drop_last()) + (if fn_arg_has_lifetime(inputs.last()) {
            1int
        } else {
            0int
        })
    }
}

/// Checks that no lifetime is used anywhere in the signature, reporting one
/// diagnostic per offending parameter and one for an offending return type.
#[verifier::loop_isolation(false)]
pub fn assert_no_lifetimes(decl: &FnDecl) -> (r: Result<(), Diagnostic>)
    ensures
        r is Ok <==> !fn_decl_has_lifetime(*decl),
        r is Err ==> r->Err_0.errors@.len() == lifetime_arg_count(decl.inputs@) + (
        if (decl.output matches Some(t) && type_has_lifetime(t)) {
            1int
        } else {
            0int
        }),
{
    let mut msgs: Vec<crate::ast::SpanMsg> = Vec::new();
    let mut i: usize = 0;
    proof {
        assert(decl.inputs@.subrange(0, 0) =~= Seq::<FnArg>::empty());
    }
    while i < decl.inputs.len()
        invariant
            0 <= i <= decl.inputs@.len(),
            msgs@.len() == lifetime_arg_count(decl.inputs@.subrange(0, i as int)),
            msgs@.len() == 0 <==> (forall|j: int|
                0 <= j < i ==> !fn_arg_has_lifetime(#[trigger] decl.inputs@[j])),
        decreases decl.inputs@.len() - i,
    {
        proof {
            assert(decl.inputs@.subrange(0, i as int + 1).drop_last() =~= decl.inputs@.subrange(
                0,
                i as int,
            ));
            assert(decl.inputs@.subrange(0, i as int + 1).last() == decl.inputs@[i as int]);
        }
        let bad = match &decl.inputs[i] {
            FnArg::Captured { name, ty } => ty.has_lifetime(),
            FnArg::SelfValue => false,
            FnArg::SelfRef { mutable, lifetime } => *lifetime,
            FnArg::IgnoredArg => false,
        };
        if bad {
            msgs.push(
                crate::ast::SpanMsg {
                    span: decl.span,
                    msg: String::from_str(
                        "it is currently not sound to use lifetimes in function signatures",
                    ),
                },
            );
        }
        i = i + 1;
    }
    proof {
        assert(decl.inputs@.subrange(0, decl.inputs@.len() as int) =~= decl.inputs@);
    }
    match &decl.output {
        Some(t) => {
            if t.has_lifetime() {
                msgs.push(
                    crate::ast::SpanMsg {
                        span: decl.span,
                        msg: String::from_str(
                            "it is currently not sound to use lifetimes in function signatures",
                        ),
                    },
                );
            }
        },
        None => {},
    }
    if msgs.len() == 0 {
        Ok(())
    } else {
        Err(Diagnostic { errors: msgs })
    }
}

/// Rejects a bag that carries `variadic`: the attribute belongs on imported
/// functions only.
pub fn assert_not_variadic(attrs: &mut BindgenAttrs) -> (r: Result<(), Diagnostic>)
    ensures
        accessor_marks(old(attrs).attrs@, final(attrs).attrs@, (|a: BindgenAttr| a is Variadic)),
        r is Ok <==> first_match(old(attrs).attrs@, (|a: BindgenAttr| a is Variadic)) is None,
{
    let variadic = attrs.variadic();
    match variadic {
        Some(span) => {
            let msg = "the `variadic` attribute can only be applied to imported (`extern`) functions";
            Err(Diagnostic::span_error(span, msg))
        },
        None => Ok(()),
    }
}

/// Returns the identifier of a path that is exactly one plain segment.
pub fn extract_path_ident(path: &Path) -> (r: Result<String, Diagnostic>)
    ensures
        r is Ok <==> (!path.leading_colon && path.segments@.len() == 1
            && path.segments@[0].arguments is NoArgs),
        r is Ok ==> r->Ok_0@ == path.segments@[0].ident@,
{
    if path.leading_colon {
        return Err(Diagnostic::span_error(Span { lo: 0, hi: 0 }, "global paths are not supported yet"));
    }
    if path.segments.len() != 1 {
        return Err(
            Diagnostic::span_error(Span { lo: 0, hi: 0 }, "multi-segment paths are not supported yet"),
        );
    }
    match &path.segments[0].arguments {
        PathArguments::NoArgs => {},
        _ => {
            return Err(
                Diagnostic::span_error(
                    Span { lo: 0, hi: 0 },
                    "paths with type parameters are not supported yet",
                ),
            );
        },
    }
    Ok(path.segments[0].ident.clone())
}

/// Whether extracting the first type parameter succeeds on this return type.
pub open spec fn ftp_ok(ty: Option<Type>) -> bool {
    match ty {
        Option::None => true,
        Option::Some(t) => match t {
            Type::Path { qself, path } => !qself && path.segments@.len() > 0 && match path.segments@.last().arguments {
                PathArguments::AngleBracketed(args) => args@.len() > 0 && (args@[0] is TypeArg),
                _ => false,
            },
            _ => false,
        },
    }
}

/// The relation between a return type and its extracted first type
/// parameter: the unit tuple is unwrapped to nothing.
pub open spec fn ftp_result(ty: Option<Type>, r: Option<Type>) -> bool {
    match ty {
        Option::None => r is None,
        Option::Some(t) => match t {
            Type::Path { qself, path } => {
                let t0 = path.segments@.last().arguments->AngleBracketed_0@[0]->TypeArg_0;
                if t0 matches Type::Tuple { elems } && elems@.len() == 0 {
                    r is None
                } else {
                    r matches Some(out) && type_eq(out, t0)
                }
            },
            _ => false,
        },
    }
}

/// Gets the first type parameter of a generic type: the success type of a
/// two-arm sum such as `Result<T, E>`.
pub fn extract_first_ty_param(ty: Option<&Type>, err_span: Span) -> (r: Result<
    Option<Type>,
    Diagnostic,
>)
    ensures
        r is Ok <==> ftp_ok(match ty {
            Option::Some(t) => Option::Some(*t),
            Option::None => Option::None,
        }),
        r is Ok ==> ftp_result(
            match ty {
                Option::Some(t) => Option::Some(*t),
                Option::None => Option::None,
            },
            r->Ok_0,
        ),
{
    let t = match ty {
        Some(t) => t,
        None => {
            return Ok(None);
        },
    };
    let path = match t {
        Type::Path { qself, path } => {
            if *qself {
                return Err(Diagnostic::span_error(err_span, "must be Result<...>"));
            }
            path
        },
        _ => {
            return Err(Diagnostic::span_error(err_span, "must be Result<...>"));
        },
    };
    if path.segments.len() == 0 {
        return Err(Diagnostic::span_error(err_span, "must have at least one segment"));
    }
    let seg = &path.segments[path.segments.len() - 1];
    let args = match &seg.arguments {
        PathArguments::AngleBracketed(args) => args,
        _ => {
            return Err(Diagnostic::span_error(err_span, "must be Result<...>"));
        },
    };
    if args.len() == 0 {
        return Err(Diagnostic::span_error(err_span, "must have at least one generic parameter"));
    }
    let t0 = match &args[0] {
        crate::ast::GenericArg::TypeArg(t0) => t0,
        _ => {
            return Err(Diagnostic::span_error(err_span, "must be a type parameter"));
        },
    };
    match t0 {
        Type::Tuple { elems } => {
            if elems.len() == 0 {
                return Ok(None);
            }
        },
        _ => {},
    }
    Ok(Some(t0.clone()))
}

/// Whether an attribute is a documentation comment.
pub open spec fn is_doc(a: Attribute) -> bool {
    exists|i: int| 0 <= i < a.path@.len() && (#[trigger] a.path@[i])@ == "doc"@
}

/// The literal tokens of the documentation comments, in order.
pub open spec fn spec_doc_comments(attrs: Seq<Attribute>) -> Seq<String>
    decreases attrs.len(),
{
    if attrs.len() == 0 {
        Seq::empty()
    } else if is_doc(attrs.last()) {
        spec_doc_comments(attrs.drop_last()) + attrs.last().literals@
    } else {
        spec_doc_comments(attrs.drop_last())
    }
}

/// Extracts the documentation comments from an attribute list.
#[verifier::loop_isolation(false)]
pub fn extract_doc_comments(attrs: &Vec<Attribute>) -> (r: Vec<String>)
    ensures
        r@ == spec_doc_comments(attrs@),
{
    let mut out: Vec<String> = Vec::new();
    let mut i: usize = 0;
    proof {
        assert(attrs@.subrange(0, 0) =~= Seq::<Attribute>::empty());
    }
    while i < attrs.len()
        invariant
            0 <= i <= attrs@.len(),
            out@ == spec_doc_comments(attrs@.subrange(0, i as int)),
        decreases attrs@.len() - i,
    {
        let a = &attrs[i];
        let mut is_doc_attr = false;
        let mut j: usize = 0;
        while j < a.path.len()
            invariant
                0 <= j <= a.path@.len(),
                is_doc_attr == exists|m: int| 0 <= m < j && (#[trigger] a.path@[m])@ == "doc"@,
            decreases a.path@.len() - j,
        {
            if str_eq(a.path[j].as_str(), "doc") {
                is_doc_attr = true;
            }
            j = j + 1;
        }
        proof {
            assert(attrs@.subrange(0, i as int + 1).drop_last() =~= attrs@.subrange(0, i as int));
            assert(attrs@.subrange(0, i as int + 1).last() == attrs@[i as int]);
        }
        if is_doc_attr {
            let mut lits = clone_string_vec(&a.literals);
            out.append(&mut lits);
        }
        i = i + 1;
    }
    proof {
        assert(attrs@.subrange(0, attrs@.len() as int) =~= attrs@);
    }
    out
}

/// The operation flavour selected by the bag: each indexing attribute
/// overrides a plain getter or setter, the deleter strongest.
pub open spec fn spec_operation_kind(entries: Seq<(bool, BindgenAttr)>) -> OperationKind {
    if first_match(entries, (|a: BindgenAttr| a is IndexingDeleter)) is Some {
        OperationKind::IndexingDeleter
    } else if first_match(entries, (|a: BindgenAttr| a is IndexingSetter)) is Some {
        OperationKind::IndexingSetter
    } else if first_match(entries, (|a: BindgenAttr| a is IndexingGetter)) is Some {
        OperationKind::IndexingGetter
    } else if first_match(entries, (|a: BindgenAttr| a is Setter)) is Some {
        OperationKind::Setter(
            entries[first_match(entries, (|a: BindgenAttr| a is Setter))->0].1->Setter_1,
        )
    } else if first_match(entries, (|a: BindgenAttr| a is Getter)) is Some {
        OperationKind::Getter(
            entries[first_match(entries, (|a: BindgenAttr| a is Getter))->0].1->Getter_1,
        )
    } else {
        OperationKind::Regular
    }
}

/// Whether `post` is `pre` with some consumed flags newly set: the payloads
/// stand, and no flag is cleared.
pub open spec fn flags_monotone(
    pre: Seq<(bool, BindgenAttr)>,
    post: Seq<(bool, BindgenAttr)>,
) -> bool {
    post.len() == pre.len() && forall|i: int|
        0 <= i < pre.len() ==> (#[trigger] post[i]).1 == pre[i].1 && (pre[i].0 ==> post[i].0)
}

/// A marking step keeps the payloads and only sets flags.
pub proof fn lemma_accessor_marks_monotone(
    pre: Seq<(bool, BindgenAttr)>,
    post: Seq<(bool, BindgenAttr)>,
    g: spec_fn(BindgenAttr) -> bool,
)
    requires
        accessor_marks(pre, post, g),
    ensures
        flags_monotone(pre, post),
{
    match first_match(pre, g) {
        Some(i) => {
            lemma_first_from_in_range(pre, g, 0);
        },
        None => {},
    }
}

/// A first match lies inside the sequence.
pub proof fn lemma_first_from_in_range(
    entries: Seq<(bool, BindgenAttr)>,
    f: spec_fn(BindgenAttr) -> bool,
    i: int,
)
    requires
        0 <= i <= entries.len(),
    ensures
        first_from(entries, f, i) matches Some(j) ==> i <= j < entries.len() && f(entries[j].1),
    decreases entries.len() - i,
{
    if i < entries.len() && !f(entries[i].1) {
        lemma_first_from_in_range(entries, f, i + 1);
    }
}

/// Flag changes do not move a first match: it looks at payloads alone.
pub proof fn lemma_first_from_flags(
    pre: Seq<(bool, BindgenAttr)>,
    post: Seq<(bool, BindgenAttr)>,
    f: spec_fn(BindgenAttr) -> bool,
    i: int,
)
    requires
        flags_monotone(pre, post),
        0 <= i <= pre.len(),
    ensures
        first_from(post, f, i) == first_from(pre, f, i),
    decreases pre.len() - i,
{
    if i < pre.len() {
        lemma_first_from_flags(pre, post, f, i + 1);
    }
}

/// Monotone flag changes compose.
pub proof fn lemma_flags_monotone_trans(
    a: Seq<(bool, BindgenAttr)>,
    b: Seq<(bool, BindgenAttr)>,
    c: Seq<(bool, BindgenAttr)>,
)
    requires
        flags_monotone(a, b),
        flags_monotone(b, c),
    ensures
        flags_monotone(a, c),
{
}

/// Reads the operation flavour of the bag, consuming the first attribute of
/// each of the five flavours that is present.
pub fn operation_kind(opts: &mut BindgenAttrs) -> (r: OperationKind)
    ensures
        flags_monotone(old(opts).attrs@, final(opts).attrs@),
        r == spec_operation_kind(old(opts).attrs@),
{
    let ghost pre = opts.attrs@;
    let mut kind = OperationKind::Regular;
    let g = opts.getter();
    proof {
        lemma_accessor_marks_monotone(pre, opts.attrs@, (|a: BindgenAttr| a is Getter));
        lemma_first_from_flags(pre, opts.attrs@, (|a: BindgenAttr| a is Setter), 0);
        lemma_first_from_flags(pre, opts.attrs@, (|a: BindgenAttr| a is IndexingGetter), 0);
        lemma_first_from_flags(pre, opts.attrs@, (|a: BindgenAttr| a is IndexingSetter), 0);
        lemma_first_from_flags(pre, opts.attrs@, (|a: BindgenAttr| a is IndexingDeleter), 0);
        lemma_first_from_in_range(pre, (|a: BindgenAttr| a is Getter), 0);
    }
    match g {
        Some(name) => {
            kind = OperationKind::Getter(name);
        },
        None => {},
    }
    let ghost pre2 = opts.attrs@;
    let s = opts.setter();
    proof {
        lemma_accessor_marks_monotone(pre2, opts.attrs@, (|a: BindgenAttr| a is Setter));
        lemma_flags_monotone_trans(pre, pre2, opts.attrs@);
        lemma_first_from_flags(pre, opts.attrs@, (|a: BindgenAttr| a is IndexingGetter), 0);
        lemma_first_from_flags(pre, opts.attrs@, (|a: BindgenAttr| a is IndexingSetter), 0);
        lemma_first_from_flags(pre, opts.attrs@, (|a: BindgenAttr| a is IndexingDeleter), 0);
        lemma_first_from_flags(pre2, opts.attrs@, (|a: BindgenAttr| a is Setter), 0);
        lemma_first_from_flags(pre, pre2, (|a: BindgenAttr| a is Setter), 0);
        lemma_first_from_in_range(pre, (|a: BindgenAttr| a is Setter), 0);
    }
    match s {
        Some(name) => {
            kind = OperationKind::Setter(name);
        },
        None => {},
    }
    let ghost pre3 = opts.attrs@;
    let ig = opts.indexing_getter();
    proof {
        lemma_accessor_marks_monotone(pre3, opts.attrs@, (|a: BindgenAttr| a is IndexingGetter));
        lemma_flags_monotone_trans(pre, pre3, opts.attrs@);
        lemma_first_from_flags(pre3, opts.attrs@, (|a: BindgenAttr| a is IndexingGetter), 0);
        lemma_first_from_flags(pre, pre3, (|a: BindgenAttr| a is IndexingGetter), 0);
        lemma_first_from_flags(pre, opts.attrs@, (|a: BindgenAttr| a is IndexingSetter), 0);
        lemma_first_from_flags(pre, opts.attrs@, (|a: BindgenAttr| a is IndexingDeleter), 0);
    }
    if ig.is_some() {
        kind = OperationKind::IndexingGetter;
    }
    let ghost pre4 = opts.attrs@;
    let is2 = opts.indexing_setter();
    proof {
        lemma_accessor_marks_monotone(pre4, opts.attrs@, (|a: BindgenAttr| a is IndexingSetter));
        lemma_flags_monotone_trans(pre, pre4, opts.attrs@);
        lemma_first_from_flags(pre4, opts.attrs@, (|a: BindgenAttr| a is IndexingSetter), 0);
        lemma_first_from_flags(pre, pre4, (|a: BindgenAttr| a is IndexingSetter), 0);
        lemma_first_from_flags(pre, opts.attrs@, (|a: BindgenAttr| a is IndexingDeleter), 0);
    }
    if is2.is_some() {
        kind = OperationKind::IndexingSetter;
    }
    let ghost pre5 = opts.attrs@;
    let idl = opts.indexing_deleter();
    proof {
        lemma_accessor_marks_monotone(pre5, opts.attrs@, (|a: BindgenAttr| a is IndexingDeleter));
        lemma_flags_monotone_trans(pre, pre5, opts.attrs@);
        lemma_first_from_flags(pre5, opts.attrs@, (|a: BindgenAttr| a is IndexingDeleter), 0);
        lemma_first_from_flags(pre, pre5, (|a: BindgenAttr| a is IndexingDeleter), 0);
    }
    if idl.is_some() {
        kind = OperationKind::IndexingDeleter;
    }
    kind
}

/// How many receiver parameters a signature has.
pub open spec fn self_count(inputs: Seq<FnArg>) -> int
    decreases inputs.len(),
{
    if inputs.len() == 0 {
        0
    } else {
        (match inputs.last() {
            FnArg::SelfValue => 1int,
            FnArg::SelfRef { mutable, lifetime } => 1int,
            _ => 0int,
        }) + self_count(inputs.drop_last())
    }
}

/// The well-formedness that signature lowering expects of its inputs: no
/// ignored parameter, a borrowed receiver only where one is allowed, and at
/// most one receiver.
pub open spec fn args_wf(inputs: Seq<FnArg>, allow_self: bool) -> bool {
    self_count(inputs) <= 1 && forall|i: int|
        0 <= i < inputs.len() ==> !((#[trigger] inputs[i]) is IgnoredArg) && (!allow_self
            ==> !(inputs[i] is SelfRef))
}

/// Whether the type is the bare path `Self`.
pub open spec fn is_self_path(t: Type) -> bool {
    t matches Type::Path { qself, path } && !qself && path.segments@.len() == 1
        && path.segments@[0].ident@ == "Self"@
}

/// Whether the type is a bare single-segment path spelling `name`.
pub open spec fn single_seg_path(t: Type, name: Seq<char>) -> bool {
    t matches Type::Path { qself, path } && !qself && !path.leading_colon && path.segments@.len()
        == 1 && path.segments@[0].ident@ == name && path.segments@[0].arguments is NoArgs
}

/// The view of an optional identifier.
pub open spec fn opt_ident_view(o: Option<&String>) -> Option<Seq<char>> {
    match o {
        Option::Some(s) => Option::Some(s@),
        Option::None => Option::None,
    }
}

/// What replacing `Self` does to one type: the bare path `Self` becomes the
/// surrounding type's name; everything else is kept.
pub open spec fn replace_self_rel(sty: Option<Seq<char>>, t: Type, out: Type) -> bool {
    match sty {
        Option::Some(name) => if is_self_path(t) {
            single_seg_path(out, name)
        } else {
            type_eq(out, t)
        },
        Option::None => type_eq(out, t),
    }
}

/// Replaces a bare `Self` path by the surrounding type's name.
fn replace_self(self_ty: Option<&String>, t: Type) -> (out: Type)
    ensures
        replace_self_rel(opt_ident_view(self_ty), t, out),
{
    let ident = match self_ty {
        Some(i) => i,
        None => {
            proof {
                crate::ast::lemma_type_eq_reflexive(t);
            }
            return t;
        },
    };
    let replace = match &t {
        Type::Path { qself, path } => !*qself && path.segments.len() == 1 && str_eq(
            path.segments[0].ident.as_str(),
            "Self",
        ),
        _ => false,
    };
    if replace {
        let mut segments: Vec<PathSegment> = Vec::new();
        segments.push(PathSegment { ident: ident.clone(), arguments: PathArguments::NoArgs });
        Type::Path { qself: false, path: Path { leading_colon: false, segments } }
    } else {
        proof {
            crate::ast::lemma_type_eq_reflexive(t);
        }
        t
    }
}

/// The receiver kind of a signature: the last receiver parameter decides,
/// and a well-formed signature has at most one.
pub open spec fn spec_method_self(inputs: Seq<FnArg>) -> Option<MethodSelf>
    decreases inputs.len(),
{
    if inputs.len() == 0 {
        Option::None
    } else {
        match inputs.last() {
            FnArg::SelfValue => Option::Some(MethodSelf::ByValue),
            FnArg::SelfRef { mutable, lifetime } => Option::Some(
                if mutable {
                    MethodSelf::RefMutable
                } else {
                    MethodSelf::RefShared
                },
            ),
            _ => spec_method_self(inputs.drop_last()),
        }
    }
}

/// The lowered argument list: the ordinary parameters in order, each with
/// `Self` replaced, the receivers dropped.
pub open spec fn args_lowered(
    inputs: Seq<FnArg>,
    sty: Option<Seq<char>>,
    out: Seq<CapturedArg>,
) -> bool
    decreases inputs.len(),
{
    if inputs.len() == 0 {
        out.len() == 0
    } else {
        match inputs.last() {
            FnArg::Captured { name, ty } => out.len() > 0 && out.last().name@ == name@
                && replace_self_rel(sty, ty, out.last().ty) && args_lowered(
                inputs.drop_last(),
                sty,
                out.drop_last(),
            ),
            _ => args_lowered(inputs.drop_last(), sty, out),
        }
    }
}

/// The lowered return type.
pub open spec fn ret_lowered(output: Option<Type>, sty: Option<Seq<char>>, ret: Option<Type>) -> bool {
    match output {
        Option::None => ret is None,
        Option::Some(t) => ret matches Some(o) && replace_self_rel(sty, t, o),
    }
}

/// The name a lowered function carries: the `js_name` payload when one is
/// given, else the declared identifier.
pub open spec fn lowered_name_ok(
    pre: Seq<(bool, BindgenAttr)>,
    decl_name: Seq<char>,
    decl_name_span: Span,
    f: Function,
) -> bool {
    match first_match(pre, (|a: BindgenAttr| a is JsName)) {
        Some(i) => f.name@ == pre[i].1->JsName_1@ && f.name_span == pre[i].1->JsName_2
            && f.renamed_via_js_name,
        None => f.name@ == decl_name && f.name_span == decl_name_span && !f.renamed_via_js_name,
    }
}

/// Whether signature lowering succeeds: no `...` parameter, no generics, no
/// lifetime anywhere.
pub open spec fn decl_lowering_ok(decl: FnDecl) -> bool {
    decl.variadic is None && decl.generics_count == 0 && !fn_decl_has_lifetime(decl)
}

/// Lowers a declared signature into an AST function, together with its
/// receiver kind.  The `js_name` attribute, when present, renames it.
#[verifier::loop_isolation(false)]
pub fn function_from_decl(
    decl_name: &String,
    decl_name_span: Span,
    opts: &mut BindgenAttrs,
    decl: FnDecl,
    attrs: Vec<Attribute>,
    vis_pub: bool,
    allow_self: bool,
    self_ty: Option<&String>,
) -> (r: Result<(Function, Option<MethodSelf>), Diagnostic>)
    requires
        args_wf(decl.inputs@, allow_self),
    ensures
        r is Ok ==> accessor_marks(
            old(opts).attrs@,
            final(opts).attrs@,
            (|a: BindgenAttr| a is JsName),
        ),
        r is Err ==> final(opts).attrs@ == old(opts).attrs@,
        r is Ok <==> decl_lowering_ok(decl),
        r is Ok ==> {
            &&& args_lowered(decl.inputs@, opt_ident_view(self_ty), r->Ok_0.0.arguments@)
            &&& r->Ok_0.1 == spec_method_self(decl.inputs@)
            &&& ret_lowered(decl.output, opt_ident_view(self_ty), r->Ok_0.0.ret)
            &&& r->Ok_0.0.rust_attrs == attrs
            &&& r->Ok_0.0.rust_vis_pub == vis_pub
            &&& lowered_name_ok(old(opts).attrs@, decl_name@, decl_name_span, r->Ok_0.0)
        },
{
    match decl.variadic {
        Some(sp) => {
            return Err(Diagnostic::span_error(sp, "can't #[wasm_bindgen] variadic functions"));
        },
        None => {},
    }
    if decl.generics_count > 0 {
        return Err(
            Diagnostic::span_error(
                decl.generics_span,
                "can't #[wasm_bindgen] functions with lifetime or type parameters",
            ),
        );
    }
    match assert_no_lifetimes(&decl) {
        Ok(u) => {},
        Err(d) => {
            return Err(d);
        },
    }
    let FnDecl { span: decl_span, generics_count, generics_span, inputs, output, variadic } = decl;
    let ghost orig = inputs@;
    let mut inputs = inputs;
    let total = inputs.len();
    let mut arguments: Vec<CapturedArg> = Vec::new();
    let mut method_self: Option<MethodSelf> = None;
    let mut k: usize = 0;
    proof {
        assert(orig.subrange(0, 0) =~= Seq::<FnArg>::empty());
    }
    while inputs.len() > 0
        invariant
            k <= total,
            total == orig.len(),
            k + inputs@.len() == orig.len(),
            inputs@ =~= orig.skip(k as int),
            args_lowered(orig.subrange(0, k as int), opt_ident_view(self_ty), arguments@),
            method_self == spec_method_self(orig.subrange(0, k as int)),
        decreases inputs@.len(),
    {
        let a = inputs.remove(0);
        proof {
            assert(a == orig[k as int]);
            assert(inputs@ =~= orig.skip(k as int + 1));
            assert(orig.subrange(0, k as int + 1).drop_last() =~= orig.subrange(0, k as int));
            assert(orig.subrange(0, k as int + 1).last() == orig[k as int]);
        }
        let ghost pre_args = arguments@;
        match a {
            FnArg::Captured { name, ty } => {
                let ty2 = replace_self(self_ty, ty);
                arguments.push(CapturedArg { name, ty: ty2 });
                proof {
                    assert(arguments@.drop_last() =~= pre_args);
                }
            },
            FnArg::SelfValue => {
                method_self = Some(MethodSelf::ByValue);
            },
            FnArg::SelfRef { mutable, lifetime } => {
                if mutable {
                    method_self = Some(MethodSelf::RefMutable);
                } else {
                    method_self = Some(MethodSelf::RefShared);
                }
            },
            FnArg::IgnoredArg => {
                proof {
                    assert(orig[k as int] is IgnoredArg);
                    assert(false);
                }
            },
        }
        k = k + 1;
    }
    proof {
        assert(orig.subrange(0, k as int) =~= orig);
    }
    let ret = match output {
        Some(ty) => Some(replace_self(self_ty, ty)),
        None => None,
    };
    let named = opts.js_name();
    let (name, name_span, renamed) = match named {
        Some((n, nsp)) => (n, nsp, true),
        None => (decl_name.clone(), decl_name_span, false),
    };
    Ok(
        (
            Function {
                name,
                name_span,
                renamed_via_js_name: renamed,
                arguments,
                ret,
                rust_attrs: attrs,
                rust_vis_pub: vis_pub,
            },
            method_self,
        ),
    )
}

/// Whether `x` occurs among the values.
pub open spec fn contains_u32(s: Seq<u32>, x: u32) -> bool {
    exists|i: int| 0 <= i < s.len() && s[i] == x
}

/// All values pairwise different.
pub open spec fn distinct_u32(s: Seq<u32>) -> bool {
    forall|i: int, j: int| 0 <= i < j < s.len() ==> (#[trigger] s[i]) != (#[trigger] s[j])
}

/// The least of the values.
pub open spec fn seq_min_u32(s: Seq<u32>) -> u32
    recommends
        s.len() > 0,
    decreases s.len(),
{
    if s.len() <= 1 {
        s[0]
    } else if s.last() < seq_min_u32(s.drop_last()) {
        s.last()
    } else {
        seq_min_u32(s.drop_last())
    }
}

proof fn lemma_seq_min_props(s: Seq<u32>)
    requires
        s.len() > 0,
    ensures
        contains_u32(s, seq_min_u32(s)),
        forall|i: int| 0 <= i < s.len() ==> s[i] >= seq_min_u32(s),
    decreases s.len(),
{
    if s.len() == 1 {
        assert(s[0] == seq_min_u32(s));
    } else {
        lemma_seq_min_props(s.drop_last());
        let m0 = seq_min_u32(s.drop_last());
        let w = choose|i: int| 0 <= i < s.drop_last().len() && s.drop_last()[i] == m0;
        assert(s[w] == m0);
        assert forall|i: int| 0 <= i < s.len() implies s[i] >= seq_min_u32(s) by {
            if i < s.len() - 1 {
                assert(s.drop_last()[i] == s[i]);
            }
        }
    }
}

fn min_of(v: &Vec<u32>) -> (r: u32)
    requires
        v@.len() > 0,
    ensures
        r == seq_min_u32(v@),
{
    let mut m = v[0];
    let mut i: usize = 1;
    proof {
        assert(v@.subrange(0, 1) =~= seq![v@[0]]);
    }
    while i < v.len()
        invariant
            1 <= i <= v@.len(),
            m == seq_min_u32(v@.subrange(0, i as int)),
        decreases v@.len() - i,
    {
        proof {
            assert(v@.subrange(0, i as int + 1).drop_last() =~= v@.subrange(0, i as int));
            assert(v@.subrange(0, i as int + 1).last() == v@[i as int]);
        }
        if v[i] < m {
            m = v[i];
        }
        i = i + 1;
    }
    proof {
        assert(v@.subrange(0, v@.len() as int) =~= v@);
    }
    m
}

fn contains_vec(v: &Vec<u32>, x: u32) -> (r: bool)
    ensures
        r == contains_u32(v@, x),
{
    let mut i: usize = 0;
    while i < v.len()
        invariant
            0 <= i <= v@.len(),
            forall|j: int| 0 <= j < i ==> v@[j] != x,
        decreases v@.len() - i,
    {
        if v[i] == x {
            return true;
        }
        i = i + 1;
    }
    false
}

/// What the hole of an accepted enum is: the least value above the minimum
/// that no variant uses.
pub open spec fn is_enum_hole(s: Seq<u32>, h: u32) -> bool {
    &&& seq_min_u32(s) < h
    &&& !contains_u32(s, h)
    &&& forall|g: u32| seq_min_u32(s) < g < h ==> #[trigger] contains_u32(s, g)
}

/// Distinct values that fill every slot between their minimum and `h` leave
/// `h` at most `min + len`.
proof fn lemma_hole_bound(s: Seq<u32>, m: u32, h: int)
    requires
        distinct_u32(s),
        s.len() > 0,
        m == seq_min_u32(s),
        m < h,
        h <= u32::MAX as int + 1,
        forall|g: u32| m < g < h ==> #[trigger] contains_u32(s, g),
    ensures
        h <= m + s.len(),
{
    broadcast use vstd::seq_lib::seq_to_set_is_finite;

    let si = s.map_values(|x: u32| x as int);
    assert(si.no_duplicates()) by {
        assert forall|i: int, j: int|
            0 <= i < si.len() && 0 <= j < si.len() && i != j implies si[i] != si[j] by {
            if i < j {
                assert(s[i] != s[j]);
            } else {
                assert(s[j] != s[i]);
            }
        }
    }
    si.unique_seq_to_set();
    lemma_seq_min_props(s);
    let r = vstd::set_lib::set_int_range(m as int, h);
    vstd::set_lib::lemma_int_range(m as int, h);
    assert(r.subset_of(si.to_set())) by {
        assert forall|g: int| r.contains(g) implies si.to_set().contains(g) by {
            if g == m as int {
                let w = choose|i: int| 0 <= i < s.len() && s[i] == m;
                assert(si[w] == g);
            } else {
                assert(m < (g as u32) && (g as u32) < h);
                assert(contains_u32(s, g as u32));
                let w = choose|i: int| 0 <= i < s.len() && s[i] == g as u32;
                assert(si[w] == g);
            }
        }
    }
    vstd::set_lib::lemma_len_subset(r, si.to_set());
}

/// Computes the hole of a set of distinct variant values: the least value
/// above the minimum that none of them uses.
pub fn compute_hole(v: &Vec<u32>) -> (r: u32)
    requires
        v@.len() > 0,
        distinct_u32(v@),
        seq_min_u32(v@) + v@.len() <= u32::MAX,
    ensures
        is_enum_hole(v@, r),
{
    let m = min_of(v);
    let ghost len = v@.len() as int;
    let mut h: u32 = m + 1;
    while contains_vec(v, h)
        invariant
            m < h,
            h <= m + len,
            distinct_u32(v@),
            m == seq_min_u32(v@),
            m + len <= u32::MAX,
            len == v@.len(),
            forall|g: u32| m < g < h ==> #[trigger] contains_u32(v@, g),
        decreases m + len - h,
    {
        proof {
            assert forall|g: u32| m < g < h + 1 implies #[trigger] contains_u32(v@, g) by {
                if g == h {
                    assert(contains_u32(v@, h));
                }
            }
            lemma_hole_bound(v@, m, h as int + 1);
        }
        h = h + 1;
    }
    h
}

/// The numeric value of one variant: its literal discriminant, or its
/// position.
pub open spec fn variant_value(v: crate::decl::VariantDecl, i: int) -> int {
    match v.discriminant {
        Option::Some(crate::decl::DiscriminantDecl::IntLit(x, sp)) => x as int,
        _ => i,
    }
}

/// The variant values of an accepted enum, as machine integers.
pub open spec fn enum_values_u32(vs: Seq<crate::decl::VariantDecl>) -> Seq<u32> {
    Seq::new(vs.len(), |i: int| variant_value(vs[i], i) as u32)
}

/// Whether an enum declaration is accepted: public, non-empty, every variant
/// a unit variant, discriminants on all variants or none, every
/// discriminant a literal that fits a `u32`.
pub open spec fn enum_decl_ok(e: crate::decl::ItemEnum) -> bool {
    &&& e.vis_pub
    &&& e.variants@.len() > 0
    &&& forall|i: int| 0 <= i < e.variants@.len() ==> (#[trigger] e.variants@[i]).unit_fields
    &&& forall|i: int|
        0 <= i < e.variants@.len() ==> ((#[trigger] e.variants@[i]).discriminant is Some) == (
        e.variants@[0].discriminant is Some)
    &&& forall|i: int|
        0 <= i < e.variants@.len() ==> !((#[trigger] e.variants@[i]).discriminant matches Some(
            crate::decl::DiscriminantDecl::OtherDiscr(sp),
        ))
    &&& forall|i: int|
        0 <= i < e.variants@.len() ==> variant_value(#[trigger] e.variants@[i], i)
            <= u32::MAX as int
}

impl crate::decl::ItemEnum {
    /// Lowers a declared enum: unit variants only, uniform discriminants,
    /// values that fit a `u32`, and a computed hole distinct from every
    /// variant value.
    ///
    /// The preconditions mirror what holds of every enum the language itself
    /// compiles: duplicate discriminant values are refused at the source
    /// level, and the bound on the least value keeps the hole within `u32`
    /// (without it, an enum whose values run without a gap up to the `u32`
    /// maximum has no hole to compute).
    #[verifier::loop_isolation(false)]
    pub fn macro_parse(self, program: &mut crate::ast::Program) -> (r: Result<(), Diagnostic>)
        requires
            self.variants@.len() <= u32::MAX as int,
            enum_decl_ok(self) ==> distinct_u32(enum_values_u32(self.variants@)),
            enum_decl_ok(self) ==> seq_min_u32(enum_values_u32(self.variants@))
                + self.variants@.len() <= u32::MAX as int,
        ensures
            r is Ok <==> enum_decl_ok(self),
            r is Ok ==> final(program).enums@.len() == old(program).enums@.len() + 1,
            r is Ok ==> final(program).enums@.subrange(0, old(program).enums@.len() as int) == old(
                program,
            ).enums@,
            r is Ok ==> {
                let en = final(program).enums@.last();
                &&& en.name@ == self.ident@
                &&& en.comments@ == spec_doc_comments(self.attrs@)
                &&& en.variants@.len() == self.variants@.len()
                &&& forall|i: int|
                    0 <= i < self.variants@.len() ==> (#[trigger] en.variants@[i]).name@
                        == self.variants@[i].ident@ && en.variants@[i].value as int
                        == variant_value(self.variants@[i], i)
                &&& is_enum_hole(enum_values_u32(self.variants@), en.hole)
                &&& forall|i: int|
                    0 <= i < en.variants@.len() ==> en.hole != (#[trigger] en.variants@[i]).value
            },
            r is Err ==> *final(program) == *old(program),
            final(program).exports@ == old(program).exports@,
            final(program).imports@ == old(program).imports@,
            final(program).structs@ == old(program).structs@,
            final(program).typescript_custom_sections@ == old(program).typescript_custom_sections@,
            final(program).inline_js@ == old(program).inline_js@,
    {
        if !self.vis_pub {
            return Err(
                Diagnostic::span_error(self.span, "only public enums are allowed with #[wasm_bindgen]"),
            );
        }
        if self.variants.len() == 0 {
            return Err(Diagnostic::span_error(self.span, "cannot export empty enums to JS"));
        }
        let has_discriminant = self.variants[0].discriminant.is_some();
        let mut variants: Vec<crate::ast::Variant> = Vec::new();
        let mut values: Vec<u32> = Vec::new();
        let ghost vs = self.variants@;
        let mut rest = self.variants;
        let total = rest.len();
        let mut i: usize = 0;
        while rest.len() > 0
            invariant
                i <= total,
                total == vs.len(),
                i + rest@.len() == vs.len(),
                rest@ =~= vs.skip(i as int),
                variants@.len() == i,
                values@.len() == i,
                has_discriminant == (vs[0].discriminant is Some),
                forall|j: int|
                    0 <= j < i ==> (#[trigger] vs[j]).unit_fields && ((vs[j].discriminant is Some)
                        == has_discriminant) && !(vs[j].discriminant matches Some(
                        crate::decl::DiscriminantDecl::OtherDiscr(sp),
                    )) && variant_value(vs[j], j) <= u32::MAX as int,
                forall|j: int|
                    0 <= j < i ==> (#[trigger] variants@[j]).name@ == vs[j].ident@
                        && variants@[j].value as int == variant_value(vs[j], j),
                forall|j: int| 0 <= j < i ==> (#[trigger] values@[j]) as int == variant_value(vs[j], j),
            decreases rest@.len(),
        {
            let v = rest.remove(0);
            proof {
                assert(v == vs[i as int]);
                assert(rest@ =~= vs.skip(i as int + 1));
            }
            if !v.unit_fields {
                return Err(
                    Diagnostic::span_error(v.span, "only C-Style enums allowed with #[wasm_bindgen]"),
                );
            }
            if v.discriminant.is_some() != has_discriminant {
                return Err(
                    Diagnostic::span_error(
                        v.span,
                        "must either annotate discriminant of all variants or none",
                    ),
                );
            }
            let value: u32 = match v.discriminant {
                Some(crate::decl::DiscriminantDecl::IntLit(x, sp)) => {
                    if x > 0xFFFFFFFFu64 {
                        return Err(
                            Diagnostic::span_error(
                                sp,
                                "enums with #[wasm_bindgen] can only support numbers that can be represented as u32",
                            ),
                        );
                    }
                    x as u32
                },
                Some(crate::decl::DiscriminantDecl::OtherDiscr(sp)) => {
                    return Err(
                        Diagnostic::span_error(
                            sp,
                            "enums with #[wasm_bindgen] may only have number literal values",
                        ),
                    );
                },
                None => i as u32,
            };
            variants.push(crate::ast::Variant { name: v.ident, value });
            values.push(value);
            i = i + 1;
        }
        proof {
            assert(vs.skip(i as int).len() == 0);
            assert(i == vs.len());
            assert(enum_decl_ok(self));
            assert(values@ =~= enum_values_u32(vs));
        }
        let hole = compute_hole(&values);
        let comments = extract_doc_comments(&self.attrs);
        program.enums.push(
            crate::ast::Enum { name: self.ident, variants, comments, hole },
        );
        proof {
            assert(program.enums@.subrange(0, old(program).enums@.len() as int) =~= old(
                program,
            ).enums@);
            let en = program.enums@.last();
            assert forall|j: int|
                0 <= j < en.variants@.len() implies en.hole != (#[trigger] en.variants@[j]).value by {
                assert(en.variants@[j].value as int == variant_value(vs[j], j));
                assert(enum_values_u32(vs)[j] == en.variants@[j].value);
                assert(contains_u32(enum_values_u32(vs), en.variants@[j].value));
            }
        }
        Ok(())
    }
}

/// Whether a free function declaration is accepted: public, not `const`, not
/// `unsafe`, no `variadic` attribute, and a lowerable signature.
pub open spec fn itemfn_convert_ok(
    f: crate::decl::ItemFn,
    entries: Seq<(bool, BindgenAttr)>,
) -> bool {
    &&& f.vis_pub
    &&& f.constness is None
    &&& f.unsafety is None
    &&& first_match(entries, (|a: BindgenAttr| a is Variadic)) is None
    &&& decl_lowering_ok(f.decl)
}

impl crate::decl::ItemFn {
    /// Lowers a declared free function, auditing its attribute bag.
    pub fn convert(
        self,
        state: &mut crate::attrs::AttributeParseState,
        opts: BindgenAttrs,
    ) -> (r: Result<Function, Diagnostic>)
        requires
            args_wf(self.decl.inputs@, false),
            old(state).checks < usize::MAX,
        ensures
            final(state).parsed == old(state).parsed,
            final(state).strict == old(state).strict,
            old(state).checks <= final(state).checks <= old(state).checks + 1,
            r is Ok ==> final(state).checks == old(state).checks + 1,
            r is Ok ==> itemfn_convert_ok(self, opts.attrs@),
            !old(state).strict ==> (r is Ok <==> itemfn_convert_ok(self, opts.attrs@)),
            r is Ok ==> {
                &&& args_lowered(self.decl.inputs@, Option::None, r->Ok_0.arguments@)
                &&& ret_lowered(self.decl.output, Option::None, r->Ok_0.ret)
                &&& lowered_name_ok(opts.attrs@, self.ident@, self.ident_span, r->Ok_0)
                &&& r->Ok_0.rust_attrs == self.attrs
                &&& r->Ok_0.rust_vis_pub
            },
    {
        if !self.vis_pub {
            return Err(Diagnostic::span_error(self.span, "can only #[wasm_bindgen] public functions"));
        }
        match self.constness {
            Some(sp) => {
                return Err(Diagnostic::span_error(sp, "can only #[wasm_bindgen] non-const functions"));
            },
            None => {},
        }
        match self.unsafety {
            Some(sp) => {
                return Err(Diagnostic::span_error(sp, "can only #[wasm_bindgen] safe functions"));
            },
            None => {},
        }
        let mut opts = opts;
        let ghost bag0 = opts.attrs@;
        match assert_not_variadic(&mut opts) {
            Ok(u) => {},
            Err(d) => {
                return Err(d);
            },
        }
        proof {
            lemma_accessor_marks_monotone(bag0, opts.attrs@, (|a: BindgenAttr| a is Variadic));
            lemma_first_from_flags(bag0, opts.attrs@, (|a: BindgenAttr| a is JsName), 0);
            lemma_first_from_in_range(bag0, (|a: BindgenAttr| a is JsName), 0);
        }
        let ghost bag1 = opts.attrs@;
        let ret = match function_from_decl(
            &self.ident,
            self.ident_span,
            &mut opts,
            self.decl,
            self.attrs,
            self.vis_pub,
            false,
            None,
        ) {
            Ok(pair) => pair,
            Err(d) => {
                return Err(d);
            },
        };
        proof {
            assert(lowered_name_ok(bag0, self.ident@, self.ident_span, ret.0));
        }
        match opts.check_used(state) {
            Ok(u) => {},
            Err(d) => {
                return Err(d);
            },
        }
        Ok(ret.0)
    }
}

/// The host-side name of one struct field: its identifier, or its position
/// rendered in decimal.
pub open spec fn field_name_view(f: crate::decl::FieldDecl, i: int) -> Seq<char> {
    match f.ident {
        Option::Some(n) => n@,
        Option::None => crate::text::dec_of(i as nat),
    }
}

/// Whether the lowered member names the declared field.
pub open spec fn field_member_ok(m: crate::ast::Member, f: crate::decl::FieldDecl, i: int) -> bool {
    match f.ident {
        Option::Some(n) => m matches crate::ast::Member::Named(s) && s@ == n@,
        Option::None => m matches crate::ast::Member::Unnamed(k) && k as int == i,
    }
}

/// The raw keywords of a field's own attribute list.
pub open spec fn field_bag_raws(f: crate::decl::FieldDecl) -> Seq<RawAttr> {
    crate::attrs::spec_collect_raws(f.attrs@)->Some_0
}

/// Whether lowering one public field succeeds: its attributes collect and
/// parse, and none of them is `variadic`.
pub open spec fn field_convert_ok(f: crate::decl::FieldDecl) -> bool {
    crate::attrs::spec_find_ok(f.attrs@) && !crate::attrs::raw_has(field_bag_raws(f), "variadic"@)
}

/// Whether the field is marked `skip`.
pub open spec fn field_skipped(f: crate::decl::FieldDecl) -> bool {
    crate::attrs::raw_has(field_bag_raws(f), "skip"@)
}

/// Whether the field is marked `readonly`.
pub open spec fn field_readonly(f: crate::decl::FieldDecl) -> bool {
    crate::attrs::raw_has(field_bag_raws(f), "readonly"@)
}

/// Whether a struct declaration is accepted outside strict mode: no
/// generics, and every public field lowers.
pub open spec fn struct_convert_ok(s: crate::decl::ItemStruct) -> bool {
    s.generics_count == 0 && forall|j: int|
        0 <= j < s.fields@.len() ==> ((#[trigger] s.fields@[j]).vis_pub ==> field_convert_ok(
            s.fields@[j],
        ))
}

/// What one lowered field holds: the declared name and type, the readonly
/// mark, the deterministic accessor symbols, and the field's own
/// documentation comments.
pub open spec fn lowered_struct_field(
    out: crate::ast::StructField,
    f: crate::decl::FieldDecl,
    i: int,
    js: Seq<char>,
    sname: Seq<char>,
) -> bool {
    &&& field_member_ok(out.name, f, i)
    &&& out.struct_name@ == sname
    &&& out.readonly == field_readonly(f)
    &&& type_eq(out.ty, f.ty)
    &&& out.getter@ == crate::symbols::spec_struct_field_get(js, field_name_view(f, i))
    &&& out.setter@ == crate::symbols::spec_struct_field_set(js, field_name_view(f, i))
    &&& out.comments@ == spec_doc_comments(crate::attrs::spec_keep_other(f.attrs@))
}

/// The lowered field list: exactly the public fields not marked `skip`, in
/// order.  Private fields and skipped fields contribute nothing.
pub open spec fn fields_lowered(
    fs: Seq<crate::decl::FieldDecl>,
    js: Seq<char>,
    sname: Seq<char>,
    out: Seq<crate::ast::StructField>,
) -> bool
    decreases fs.len(),
{
    if fs.len() == 0 {
        out.len() == 0
    } else {
        if fs.last().vis_pub && !field_skipped(fs.last()) {
            out.len() > 0 && lowered_struct_field(out.last(), fs.last(), fs.len() - 1, js, sname)
                && fields_lowered(fs.drop_last(), js, sname, out.drop_last())
        } else {
            fields_lowered(fs.drop_last(), js, sname, out)
        }
    }
}

/// The host-side class name: the `js_name` payload, or the declared name.
pub open spec fn struct_js_name(
    entries: Seq<(bool, BindgenAttr)>,
    ident: Seq<char>,
) -> Seq<char> {
    match first_match(entries, (|a: BindgenAttr| a is JsName)) {
        Some(i) => entries[i].1->JsName_1@,
        None => ident,
    }
}

/// The attribute budget of a field list, bounding how many bags and audits
/// lowering it can take.
pub open spec fn fields_budget(fs: Seq<crate::decl::FieldDecl>) -> int
    decreases fs.len(),
{
    if fs.len() == 0 {
        0
    } else {
        fields_budget(fs.drop_last()) + fs.last().attrs@.len() + 2
    }
}

proof fn lemma_fields_budget_nonneg(fs: Seq<crate::decl::FieldDecl>)
    ensures
        fields_budget(fs) >= 0,
    decreases fs.len(),
{
    if fs.len() > 0 {
        lemma_fields_budget_nonneg(fs.drop_last());
    }
}

proof fn lemma_fields_budget_split(fs: Seq<crate::decl::FieldDecl>, i: int)
    requires
        0 <= i <= fs.len(),
    ensures
        fields_budget(fs) == fields_budget(fs.subrange(0, i)) + fields_budget(fs.skip(i)),
    decreases fs.len(),
{
    if i == fs.len() {
        assert(fs.subrange(0, i) =~= fs);
        assert(fs.skip(i) =~= Seq::<crate::decl::FieldDecl>::empty());
    } else {
        assert(fs.drop_last().subrange(0, i) =~= fs.subrange(0, i));
        assert(fs.skip(i).drop_last() =~= fs.drop_last().skip(i));
        assert(fs.skip(i).last() == fs.last());
        lemma_fields_budget_split(fs.drop_last(), i);
    }
}

proof fn lemma_fields_budget_mono(fs: Seq<crate::decl::FieldDecl>, i: int)
    requires
        0 <= i <= fs.len(),
    ensures
        0 <= fields_budget(fs.subrange(0, i)) <= fields_budget(fs),
        i < fs.len() ==> fields_budget(fs.subrange(0, i + 1)) == fields_budget(fs.subrange(0, i))
            + fs[i].attrs@.len() + 2,
        i < fs.len() ==> fields_budget(fs.subrange(0, i + 1)) <= fields_budget(fs),
{
    lemma_fields_budget_nonneg(fs.subrange(0, i));
    lemma_fields_budget_nonneg(fs.skip(i));
    lemma_fields_budget_split(fs, i);
    if i < fs.len() {
        assert(fs.subrange(0, i + 1).drop_last() =~= fs.subrange(0, i));
        assert(fs.subrange(0, i + 1).last() == fs[i]);
        lemma_fields_budget_nonneg(fs.skip(i + 1));
        lemma_fields_budget_split(fs, i + 1);
    }
}

impl crate::decl::ItemStruct {
    /// Lowers a declared struct: no generics; each public field gets its
    /// documentation, its readonly mark and its deterministic accessor
    /// symbols; fields marked `skip` and private fields are left out.
    #[verifier::loop_isolation(false)]
    pub fn convert(
        self,
        state: &mut crate::attrs::AttributeParseState,
        opts: BindgenAttrs,
    ) -> (r: Result<crate::ast::Struct, Diagnostic>)
        requires
            old(state).parsed + fields_budget(self.fields@) + 1 < usize::MAX,
            old(state).checks + fields_budget(self.fields@) + 1 < usize::MAX,
        ensures
            final(state).strict == old(state).strict,
            r is Ok ==> final(state).parsed - final(state).checks == old(state).parsed - old(
                state,
            ).checks - 1,
            r is Ok ==> struct_convert_ok(self),
            !old(state).strict ==> (r is Ok <==> struct_convert_ok(self)),
            r is Ok ==> {
                let js = struct_js_name(opts.attrs@, self.ident@);
                &&& r->Ok_0.rust_name == self.ident
                &&& r->Ok_0.js_name@ == js
                &&& r->Ok_0.comments@ == spec_doc_comments(self.attrs@)
                &&& fields_lowered(self.fields@, js, self.ident@, r->Ok_0.fields@)
            },
    {
        if self.generics_count > 0 {
            return Err(
                Diagnostic::span_error(
                    self.generics_span,
                    "structs with #[wasm_bindgen] cannot have lifetime or type parameters currently",
                ),
            );
        }
        let mut opts = opts;
        let named = opts.js_name();
        let js_name: String = match named {
            Some((s, sp)) => s,
            None => self.ident.clone(),
        };
        let ghost js = js_name@;
        let ghost fsv = self.fields@;
        let mut fields_in = self.fields;
        let total = fields_in.len();
        let mut out_fields: Vec<crate::ast::StructField> = Vec::new();
        let mut i: usize = 0;
        proof {
            assert(fsv.subrange(0, 0) =~= Seq::<crate::decl::FieldDecl>::empty());
            lemma_fields_budget_mono(fsv, 0);
        }
        while fields_in.len() > 0
            invariant
                i <= total,
                total == fsv.len(),
                i + fields_in@.len() == fsv.len(),
                fields_in@ =~= fsv.skip(i as int),
                state.strict == old(state).strict,
                state.parsed - state.checks == old(state).parsed - old(state).checks,
                old(state).parsed <= state.parsed <= old(state).parsed + fields_budget(
                    fsv.subrange(0, i as int),
                ),
                old(state).checks <= state.checks <= old(state).checks + fields_budget(
                    fsv.subrange(0, i as int),
                ),
                fields_lowered(fsv.subrange(0, i as int), js, self.ident@, out_fields@),
                forall|j: int|
                    0 <= j < i ==> ((#[trigger] fsv[j]).vis_pub ==> field_convert_ok(fsv[j])),
            decreases fields_in@.len(),
        {
            let f = fields_in.remove(0);
            proof {
                assert(f == fsv[i as int]);
                assert(fields_in@ =~= fsv.skip(i as int + 1));
                assert(fsv.subrange(0, i as int + 1).drop_last() =~= fsv.subrange(0, i as int));
                assert(fsv.subrange(0, i as int + 1).last() == fsv[i as int]);
                lemma_fields_budget_mono(fsv, i as int);
            }
            let crate::decl::FieldDecl { ident, vis_pub, attrs, ty, span } = f;
            if vis_pub {
                let mut fattrs = attrs;
                let found = BindgenAttrs::find(state, &mut fattrs);
                let mut bag = match found {
                    Ok(b) => b,
                    Err(d) => {
                        return Err(d);
                    },
                };
                let ghost raws = crate::attrs::spec_collect_raws(fsv[i as int].attrs@)->Some_0;
                let ghost bagv = bag.attrs@;
                let nv = assert_not_variadic(&mut bag);
                proof {
                    crate::attrs::lemma_bridge_variadic(bagv, raws);
                }
                match nv {
                    Ok(u) => {},
                    Err(d) => {
                        return Err(d);
                    },
                }
                proof {
                    lemma_accessor_marks_monotone(
                        bagv,
                        bag.attrs@,
                        (|a: BindgenAttr| a is Variadic),
                    );
                    lemma_first_from_flags(bagv, bag.attrs@, (|a: BindgenAttr| a is Skip), 0);
                    lemma_first_from_flags(bagv, bag.attrs@, (|a: BindgenAttr| a is Readonly), 0);
                    crate::attrs::lemma_bridge_skip(bagv, raws);
                    crate::attrs::lemma_bridge_readonly(bagv, raws);
                }
                let ghost bag1 = bag.attrs@;
                let skipped = bag.skip();
                if skipped.is_some() {
                    match bag.check_used(state) {
                        Ok(u) => {},
                        Err(d) => {
                            return Err(d);
                        },
                    }
                } else {
                    let comments = extract_doc_comments(&fattrs);
                    let name_str: String = match &ident {
                        Some(n) => n.clone(),
                        None => crate::text::dec_string(i),
                    };
                    let member = match ident {
                        Some(n) => crate::ast::Member::Named(n),
                        None => crate::ast::Member::Unnamed(i),
                    };
                    let getter = crate::symbols::struct_field_get(
                        js_name.as_str(),
                        name_str.as_str(),
                    );
                    let setter = crate::symbols::struct_field_set(
                        js_name.as_str(),
                        name_str.as_str(),
                    );
                    let ghost bag2 = bag.attrs@;
                    let ro = bag.readonly();
                    proof {
                        lemma_accessor_marks_monotone(
                            bag1,
                            bag2,
                            (|a: BindgenAttr| a is Skip),
                        );
                        lemma_first_from_flags(bag1, bag2, (|a: BindgenAttr| a is Readonly), 0);
                        lemma_first_from_flags(bagv, bag1, (|a: BindgenAttr| a is Readonly), 0);
                    }
                    let ghost pre_out = out_fields@;
                    out_fields.push(
                        crate::ast::StructField {
                            name: member,
                            struct_name: self.ident.clone(),
                            readonly: ro.is_some(),
                            ty,
                            getter,
                            setter,
                            comments,
                        },
                    );
                    proof {
                        assert(out_fields@.drop_last() =~= pre_out);
                        crate::ast::lemma_type_eq_reflexive(fsv[i as int].ty);
                    }
                    match bag.check_used(state) {
                        Ok(u) => {},
                        Err(d) => {
                            return Err(d);
                        },
                    }
                }
            }
            i = i + 1;
        }
        proof {
            assert(fsv.subrange(0, i as int) =~= fsv);
            lemma_fields_budget_mono(fsv, i as int);
        }
        let comments = extract_doc_comments(&self.attrs);
        match opts.check_used(state) {
            Ok(u) => {},
            Err(d) => {
                return Err(d);
            },
        }
        Ok(
            crate::ast::Struct {
                rust_name: self.ident,
                js_name,
                fields: out_fields,
                comments,
            },
        )
    }
}


/// Setting consumed flags changes no operation flavour.
pub proof fn lemma_spec_operation_kind_stable(
    pre: Seq<(bool, BindgenAttr)>,
    post: Seq<(bool, BindgenAttr)>,
)
    requires
        flags_monotone(pre, post),
    ensures
        spec_operation_kind(post) == spec_operation_kind(pre),
{
    lemma_first_from_flags(pre, post, (|a: BindgenAttr| a is Getter), 0);
    lemma_first_from_flags(pre, post, (|a: BindgenAttr| a is Setter), 0);
    lemma_first_from_flags(pre, post, (|a: BindgenAttr| a is IndexingGetter), 0);
    lemma_first_from_flags(pre, post, (|a: BindgenAttr| a is IndexingSetter), 0);
    lemma_first_from_flags(pre, post, (|a: BindgenAttr| a is IndexingDeleter), 0);
    lemma_first_from_in_range(pre, (|a: BindgenAttr| a is Setter), 0);
    lemma_first_from_in_range(pre, (|a: BindgenAttr| a is Getter), 0);
}

/// Whether the type is a bare, unqualified, single plain path segment: what
/// a class position accepts.
pub open spec fn bare_path_ty(t: Type) -> bool {
    t matches Type::Path { qself, path } && !qself && !path.leading_colon && path.segments@.len()
        == 1 && path.segments@[0].arguments is NoArgs
}

/// Whether the type is a shared reference to a bare path: what a method
/// import's receiver must be.
pub open spec fn recv_ty_ok(t: Type) -> bool {
    t matches Type::Reference { lifetime, mutable, elem } && !mutable && bare_path_ty(*elem)
}

/// The type of the first ordinary parameter, if any.
pub open spec fn first_captured_ty(inputs: Seq<FnArg>) -> Option<Type>
    decreases inputs.len(),
{
    if inputs.len() == 0 {
        Option::None
    } else {
        match inputs[0] {
            FnArg::Captured { name, ty } => Option::Some(ty),
            _ => first_captured_ty(inputs.drop_first()),
        }
    }
}

/// The extracted first type parameter itself (nothing for the unit tuple).
pub open spec fn ftp_spec(ty: Option<Type>) -> Option<Type>
    recommends
        ftp_ok(ty),
{
    match ty {
        Option::None => Option::None,
        Option::Some(t) => match t {
            Type::Path { qself, path } => {
                let t0 = path.segments@.last().arguments->AngleBracketed_0@[0]->TypeArg_0;
                if t0 matches Type::Tuple { elems } && elems@.len() == 0 {
                    Option::None
                } else {
                    Option::Some(t0)
                }
            },
            _ => Option::None,
        },
    }
}

/// The host-visible return of an import: the declared return, unwrapped when
/// the call catches.
pub open spec fn ctor_ret(output: Option<Type>, catch: bool) -> Option<Type> {
    if catch {
        ftp_spec(output)
    } else {
        output
    }
}

/// Structural equivalence keeps the bare-path shape.
pub proof fn lemma_bare_path_ty_eq(a: Type, b: Type)
    requires
        type_eq(a, b),
    ensures
        bare_path_ty(a) == bare_path_ty(b),
{
    match (a, b) {
        (Type::Path { qself: qa, path: pa }, Type::Path { qself: qb, path: pb }) => {
            assert(crate::ast::path_eq(pa, pb));
            if pa.segments@.len() == 1 {
                assert(crate::ast::segment_eq(pa.segments@[0], pb.segments@[0]));
            }
        },
        _ => {},
    }
}

/// Structural equivalence keeps the receiver shape.
pub proof fn lemma_recv_ty_ok_eq(a: Type, b: Type)
    requires
        type_eq(a, b),
    ensures
        recv_ty_ok(a) == recv_ty_ok(b),
{
    match (a, b) {
        (
            Type::Reference { lifetime: la, mutable: ma, elem: ea },
            Type::Reference { lifetime: lb, mutable: mb, elem: eb },
        ) => {
            lemma_bare_path_ty_eq(*ea, *eb);
        },
        _ => {},
    }
}

/// Structural equivalence keeps whether the first type parameter extracts,
/// and what it extracts to.
pub proof fn lemma_ftp_shape_eq(a: Option<Type>, b: Option<Type>)
    requires
        crate::ast::opt_type_eq(a, b),
    ensures
        ftp_ok(a) == ftp_ok(b),
        ftp_ok(a) ==> crate::ast::opt_type_eq(ftp_spec(a), ftp_spec(b)),
{
    match (a, b) {
        (Option::Some(ta), Option::Some(tb)) => {
            match (ta, tb) {
                (Type::Path { qself: qa, path: pa }, Type::Path { qself: qb, path: pb }) => {
                    assert(crate::ast::path_eq(pa, pb));
                    if pa.segments@.len() > 0 {
                        let n = pa.segments@.len() - 1;
                        assert(crate::ast::segment_eq(pa.segments@[n], pb.segments@[n]));
                        assert(pa.segments@.last() == pa.segments@[n]);
                        assert(pb.segments@.last() == pb.segments@[n]);
                        match (pa.segments@[n].arguments, pb.segments@[n].arguments) {
                            (
                                PathArguments::AngleBracketed(xa),
                                PathArguments::AngleBracketed(xb),
                            ) => {
                                if xa@.len() > 0 {
                                    assert(crate::ast::generic_arg_eq(xa@[0], xb@[0]));
                                    match (xa@[0], xb@[0]) {
                                        (
                                            crate::ast::GenericArg::TypeArg(t0a),
                                            crate::ast::GenericArg::TypeArg(t0b),
                                        ) => {
                                            match (t0a, t0b) {
                                                (
                                                    Type::Tuple { elems: ea },
                                                    Type::Tuple { elems: eb },
                                                ) => {},
                                                _ => {},
                                            }
                                        },
                                        _ => {},
                                    }
                                }
                            },
                            _ => {},
                        }
                    }
                },
                _ => {},
            }
        },
        _ => {},
    }
}

/// A lowered argument list unfolds from the front as well: the first
/// ordinary parameter of the input is the first lowered argument.
pub proof fn lemma_args_lowered_front(inputs: Seq<FnArg>, sty: Option<Seq<char>>, out: Seq<CapturedArg>)
    requires
        args_lowered(inputs, sty, out),
        inputs.len() > 0,
    ensures
        match inputs[0] {
            FnArg::Captured { name, ty } => out.len() > 0 && out[0].name@ == name@
                && replace_self_rel(sty, ty, out[0].ty) && args_lowered(
                inputs.drop_first(),
                sty,
                out.drop_first(),
            ),
            _ => args_lowered(inputs.drop_first(), sty, out),
        },
    decreases inputs.len(),
{
    if inputs.len() == 1 {
        assert(inputs[0] == inputs.last());
        match inputs.last() {
            FnArg::Captured { name, ty } => {
                assert(args_lowered(inputs.drop_last(), sty, out.drop_last()));
                assert(inputs.drop_last().len() == 0);
                assert(out.drop_last().len() == 0);
                assert(out.len() == 1);
                assert(out[0] == out.last());
                assert(inputs.drop_first() =~= Seq::<FnArg>::empty());
                assert(out.drop_first() =~= Seq::<CapturedArg>::empty());
                assert(out.len() > 0 && out[0].name@ == name@ && replace_self_rel(
                    sty,
                    ty,
                    out[0].ty,
                ) && args_lowered(inputs.drop_first(), sty, out.drop_first()));
            },
            _ => {
                assert(inputs.drop_first() =~= inputs.drop_last());
                assert(args_lowered(inputs.drop_first(), sty, out));
            },
        }
    } else {
        let l = inputs.last();
        let pre = inputs.drop_last();
        assert(pre[0] == inputs[0]);
        match l {
            FnArg::Captured { name, ty } => {
                lemma_args_lowered_front(pre, sty, out.drop_last());
                assert(inputs.drop_first().len() > 0);
                assert(inputs.drop_first().last() == l);
                assert(inputs.drop_first().drop_last() =~= pre.drop_first());
                match inputs[0] {
                    FnArg::Captured { name: n0, ty: t0 } => {
                        assert(out.drop_last().len() > 0);
                        assert(out.len() >= 2);
                        assert(out[0] == out.drop_last()[0]);
                        assert(out.drop_first().len() > 0);
                        assert(out.drop_first().last() == out.last());
                        assert(out.drop_first().drop_last() =~= out.drop_last().drop_first());
                        assert(args_lowered(inputs.drop_first(), sty, out.drop_first()));
                    },
                    _ => {
                        assert(args_lowered(inputs.drop_first(), sty, out));
                    },
                }
            },
            _ => {
                lemma_args_lowered_front(pre, sty, out);
                assert(inputs.drop_first().len() > 0);
                assert(inputs.drop_first().last() == l);
                assert(inputs.drop_first().drop_last() =~= pre.drop_first());
                match inputs[0] {
                    FnArg::Captured { name: n0, ty: t0 } => {
                        assert(args_lowered(inputs.drop_first(), sty, out.drop_first()));
                    },
                    _ => {
                        assert(args_lowered(inputs.drop_first(), sty, out));
                    },
                }
            },
        }
    }
}

/// The first lowered argument exists exactly when a first ordinary parameter
/// does, and carries its (replaced) type.
pub proof fn lemma_args_lowered_first(
    inputs: Seq<FnArg>,
    sty: Option<Seq<char>>,
    out: Seq<CapturedArg>,
)
    requires
        args_lowered(inputs, sty, out),
    ensures
        (out.len() > 0) <==> (first_captured_ty(inputs) is Some),
        out.len() > 0 ==> replace_self_rel(sty, first_captured_ty(inputs)->0, out[0].ty),
    decreases inputs.len(),
{
    if inputs.len() > 0 {
        lemma_args_lowered_front(inputs, sty, out);
        match inputs[0] {
            FnArg::Captured { name, ty } => {},
            _ => {
                lemma_args_lowered_first(inputs.drop_first(), sty, out);
            },
        }
    }
}

/// What a foreign function declaration must look like to be accepted, given
/// its attribute bag: a lowerable signature, no dispatch conflict, a
/// `Result`-shaped return when it catches, a well-shaped receiver when it is
/// a method, and a bare-path target when it is a constructor.
pub open spec fn foreign_fn_convert_ok(
    f: crate::decl::ForeignItemFn,
    entries: Seq<(bool, BindgenAttr)>,
) -> bool {
    &&& decl_lowering_ok(f.decl)
    &&& !structural_final_conflict(entries)
    &&& (first_match(entries, (|a: BindgenAttr| a is Catch)) is Some ==> ftp_ok(f.decl.output))
    &&& (first_match(entries, (|a: BindgenAttr| a is Method)) is Some ==> (first_captured_ty(
        f.decl.inputs@,
    ) matches Some(t) && recv_ty_ok(t)))
    &&& (first_match(entries, (|a: BindgenAttr| a is Method)) is None && first_match(
        entries,
        (|a: BindgenAttr| a is StaticMethodOf),
    ) is None && first_match(entries, (|a: BindgenAttr| a is Constructor)) is Some ==> (ctor_ret(
        f.decl.output,
        first_match(entries, (|a: BindgenAttr| a is Catch)) is Some,
    ) matches Some(t) && bare_path_ty(t)))
}

/// The namespace of an import-function kind: the class for a method, none
/// for a free function.
pub open spec fn kind_ns(k: crate::ast::ImportFunctionKind) -> Option<String> {
    match k {
        crate::ast::ImportFunctionKind::Normal => Option::None,
        crate::ast::ImportFunctionKind::Method { class, ty, kind } => Option::Some(class),
    }
}

/// The host class name an import resolves to: the `js_class` payload when
/// present, else `fallback`.
pub open spec fn js_class_or(entries: Seq<(bool, BindgenAttr)>, fallback: Seq<char>) -> Seq<char> {
    match first_match(entries, (|a: BindgenAttr| a is JsClass)) {
        Some(i) => entries[i].1->JsClass_1@,
        None => fallback,
    }
}

/// How an imported function is dispatched, decided by its attributes: a
/// `method` import takes its class from its first argument, a
/// `static_method_of` import from the named type, a `constructor` from its
/// unwrapped return type; everything else is a free import.
pub open spec fn import_kind_matches(
    entries: Seq<(bool, BindgenAttr)>,
    wasm_args: Seq<CapturedArg>,
    js_ret: Option<Type>,
    kind: crate::ast::ImportFunctionKind,
) -> bool {
    let op = spec_operation_kind(entries);
    if first_match(entries, (|a: BindgenAttr| a is Method)) is Some {
        &&& wasm_args.len() > 0
        &&& wasm_args[0].ty matches Type::Reference { lifetime, mutable, elem } && !mutable
            && bare_path_ty(*elem) && (kind
            matches crate::ast::ImportFunctionKind::Method { class, ty, kind: mk } && type_eq(
            ty,
            *elem,
        ) && mk == crate::ast::MethodKind::Operation(
            crate::ast::Operation { is_static: false, kind: op },
        ) && (*elem matches Type::Path { qself, path } && class@ == js_class_or(
            entries,
            path.segments@[0].ident@,
        )))
    } else if first_match(entries, (|a: BindgenAttr| a is StaticMethodOf)) is Some {
        let cls = entries[first_match(entries, (|a: BindgenAttr| a is StaticMethodOf))->0].1->StaticMethodOf_1;
        &&& kind matches crate::ast::ImportFunctionKind::Method { class, ty, kind: mk }
            && class@ == js_class_or(entries, cls@) && single_seg_path(ty, cls@) && mk
            == crate::ast::MethodKind::Operation(
            crate::ast::Operation { is_static: true, kind: op },
        )
    } else if first_match(entries, (|a: BindgenAttr| a is Constructor)) is Some {
        &&& js_ret matches Some(rt)
        &&& bare_path_ty(rt)
        &&& rt matches Type::Path { qself, path } && (kind
            matches crate::ast::ImportFunctionKind::Method { class, ty, kind: mk } && type_eq(
            ty,
            rt,
        ) && mk == crate::ast::MethodKind::Constructor && class@ == js_class_or(
            entries,
            path.segments@[0].ident@,
        ))
    } else {
        kind is Normal
    }
}

/// An extracted first type parameter is exactly `ftp_spec` of the input.
pub proof fn lemma_ftp_result_is_spec(ty: Option<Type>, r: Option<Type>)
    requires
        ftp_ok(ty),
        ftp_result(ty, r),
    ensures
        crate::ast::opt_type_eq(r, ftp_spec(ty)),
{
}

/// What the dispatch decision itself accepts, over the already-lowered
/// arguments and host return: a well-shaped receiver for a method, a
/// bare-path target for a constructor.
pub open spec fn kind_accept(
    entries: Seq<(bool, BindgenAttr)>,
    wasm_args: Seq<CapturedArg>,
    js_ret: Option<Type>,
) -> bool {
    &&& (first_match(entries, (|a: BindgenAttr| a is Method)) is Some ==> wasm_args.len() > 0
        && recv_ty_ok(wasm_args[0].ty))
    &&& (first_match(entries, (|a: BindgenAttr| a is Method)) is None && first_match(
        entries,
        (|a: BindgenAttr| a is StaticMethodOf),
    ) is None && first_match(entries, (|a: BindgenAttr| a is Constructor)) is Some ==> (js_ret
        matches Some(t) && bare_path_ty(t)))
}

/// The dispatch acceptance over the lowered signature equals the acceptance
/// over the declaration itself.
pub proof fn lemma_kind_accept_bridge(
    entries: Seq<(bool, BindgenAttr)>,
    inputs: Seq<FnArg>,
    output: Option<Type>,
    wasm_args: Seq<CapturedArg>,
    lowered: Option<Type>,
    js_ret: Option<Type>,
)
    requires
        args_lowered(inputs, Option::None, wasm_args),
        ret_lowered(output, Option::None, lowered),
        (first_match(entries, (|a: BindgenAttr| a is Catch)) is Some) ==> ftp_ok(lowered)
            && ftp_result(lowered, js_ret),
        !(first_match(entries, (|a: BindgenAttr| a is Catch)) is Some) ==> crate::ast::opt_type_eq(
            js_ret,
            lowered,
        ),
    ensures
        kind_accept(entries, wasm_args, js_ret) == ({
            &&& (first_match(entries, (|a: BindgenAttr| a is Method)) is Some ==> (
            first_captured_ty(inputs) matches Some(t) && recv_ty_ok(t)))
            &&& (first_match(entries, (|a: BindgenAttr| a is Method)) is None && first_match(
                entries,
                (|a: BindgenAttr| a is StaticMethodOf),
            ) is None && first_match(entries, (|a: BindgenAttr| a is Constructor)) is Some ==> (
            ctor_ret(
                output,
                first_match(entries, (|a: BindgenAttr| a is Catch)) is Some,
            ) matches Some(t) && bare_path_ty(t)))
        }),
{
    let catch = first_match(entries, (|a: BindgenAttr| a is Catch)) is Some;
    lemma_args_lowered_first(inputs, Option::None, wasm_args);
    if wasm_args.len() > 0 {
        lemma_recv_ty_ok_eq(wasm_args[0].ty, first_captured_ty(inputs)->0);
    }
    if catch {
        lemma_ftp_result_is_spec(lowered, js_ret);
        lemma_ftp_shape_eq(lowered, output);
        if js_ret is Some {
            lemma_bare_path_ty_eq(js_ret->0, ftp_spec(lowered)->0);
            lemma_bare_path_ty_eq(ftp_spec(lowered)->0, ftp_spec(output)->0);
        }
    } else {
        if js_ret is Some {
            lemma_bare_path_ty_eq(js_ret->0, lowered->0);
            lemma_bare_path_ty_eq(lowered->0, output->0);
        }
    }
}

/// Both `structural` and `final` on one import.
pub open spec fn structural_final_conflict(entries: Seq<(bool, BindgenAttr)>) -> bool {
    first_match(entries, (|a: BindgenAttr| a is Final)) is Some && first_match(
        entries,
        (|a: BindgenAttr| a is StructuralDispatch),
    ) is Some
}

impl crate::decl::ForeignItemFn {
    /// Decides how an imported function is dispatched, reading the `method`,
    /// `static_method_of`, `constructor` and `js_class` attributes.
    #[verifier::rlimit(100)]
    #[verifier::spinoff_prover]
    fn decide_import_kind(
        opts: &mut BindgenAttrs,
        Ghost(bag0): Ghost<Seq<(bool, BindgenAttr)>>,
        wasm_args: &Vec<CapturedArg>,
        js_ret: &Option<Type>,
        op_kind: OperationKind,
        err_span: Span,
    ) -> (res: Result<crate::ast::ImportFunctionKind, Diagnostic>)
        requires
            flags_monotone(bag0, old(opts).attrs@),
            op_kind == spec_operation_kind(bag0),
        ensures
            flags_monotone(bag0, final(opts).attrs@),
            res is Ok ==> import_kind_matches(bag0, wasm_args@, *js_ret, res->Ok_0),
            res is Ok <==> kind_accept(bag0, wasm_args@, *js_ret),
    {
        let ghost b4 = opts.attrs@;
        let method_sp = opts.method();
        proof {
            lemma_accessor_marks_monotone(b4, opts.attrs@, (|a: BindgenAttr| a is Method));
            lemma_flags_monotone_trans(bag0, b4, opts.attrs@);
            lemma_first_from_flags(bag0, b4, (|a: BindgenAttr| a is Method), 0);
        }
        let r: crate::ast::ImportFunctionKind = if method_sp.is_some() {
            if wasm_args.len() == 0 {
                return Err(
                    Diagnostic::span_error(
                        err_span,
                        "imported methods must have at least one argument",
                    ),
                );
            }
            let elem_ty: &Type = match &wasm_args[0].ty {
                Type::Reference { lifetime, mutable, elem } => {
                    if *mutable {
                        return Err(
                            Diagnostic::span_error(
                                err_span,
                                "first argument of method must be a shared reference",
                            ),
                        );
                    }
                    &**elem
                },
                _ => {
                    return Err(
                        Diagnostic::span_error(
                            err_span,
                            "first argument of method must be a shared reference",
                        ),
                    );
                },
            };
            let class_path = match elem_ty {
                Type::Path { qself, path } => {
                    if *qself {
                        return Err(
                            Diagnostic::span_error(
                                err_span,
                                "first argument of method must be a path",
                            ),
                        );
                    }
                    path
                },
                _ => {
                    return Err(
                        Diagnostic::span_error(err_span, "first argument of method must be a path"),
                    );
                },
            };
            let class_ident = match extract_path_ident(class_path) {
                Ok(s) => s,
                Err(d) => {
                    return Err(d);
                },
            };
            let ghost b5 = opts.attrs@;
            let jc = opts.js_class();
            proof {
                lemma_accessor_marks_monotone(b5, opts.attrs@, (|a: BindgenAttr| a is JsClass));
                lemma_flags_monotone_trans(bag0, b5, opts.attrs@);
                lemma_first_from_flags(bag0, b5, (|a: BindgenAttr| a is JsClass), 0);
            }
            let class_name = match jc {
                Some((s, sp)) => s,
                None => class_ident,
            };
            proof {
                lemma_first_from_in_range(bag0, (|a: BindgenAttr| a is JsClass), 0);
                assert(class_name@ == js_class_or(bag0, class_path.segments@[0].ident@));
            }
            let out = crate::ast::ImportFunctionKind::Method {
                class: class_name,
                ty: elem_ty.clone(),
                kind: crate::ast::MethodKind::Operation(
                    crate::ast::Operation { is_static: false, kind: op_kind },
                ),
            };
            proof {
                assert(import_kind_matches(bag0, wasm_args@, *js_ret, out));
            }
            out
        } else {
            let ghost b5 = opts.attrs@;
            let smo = opts.static_method_of();
            proof {
                lemma_accessor_marks_monotone(
                    b5,
                    opts.attrs@,
                    (|a: BindgenAttr| a is StaticMethodOf),
                );
                lemma_flags_monotone_trans(bag0, b5, opts.attrs@);
                lemma_first_from_flags(bag0, b5, (|a: BindgenAttr| a is StaticMethodOf), 0);
            }
            if let Some(cls) = smo {
                let ghost b6 = opts.attrs@;
                let jc = opts.js_class();
                proof {
                    lemma_accessor_marks_monotone(b6, opts.attrs@, (|a: BindgenAttr| a is JsClass));
                    lemma_flags_monotone_trans(bag0, b6, opts.attrs@);
                    lemma_first_from_flags(bag0, b6, (|a: BindgenAttr| a is JsClass), 0);
                }
                let class = match jc {
                    Some((s, sp)) => s,
                    None => cls.clone(),
                };
                proof {
                    lemma_first_from_in_range(bag0, (|a: BindgenAttr| a is JsClass), 0);
                    lemma_first_from_in_range(bag0, (|a: BindgenAttr| a is StaticMethodOf), 0);
                    assert(class@ == js_class_or(bag0, cls@));
                }
                let mut segments: Vec<PathSegment> = Vec::new();
                segments.push(PathSegment { ident: cls, arguments: PathArguments::NoArgs });
                let ty = Type::Path {
                    qself: false,
                    path: Path { leading_colon: false, segments },
                };
                let out = crate::ast::ImportFunctionKind::Method {
                    class,
                    ty,
                    kind: crate::ast::MethodKind::Operation(
                        crate::ast::Operation { is_static: true, kind: op_kind },
                    ),
                };
                proof {
                    assert(import_kind_matches(bag0, wasm_args@, *js_ret, out));
                }
                out
            } else {
                let ghost b6 = opts.attrs@;
                let ctor = opts.constructor();
                proof {
                    lemma_accessor_marks_monotone(
                        b6,
                        opts.attrs@,
                        (|a: BindgenAttr| a is Constructor),
                    );
                    lemma_flags_monotone_trans(bag0, b6, opts.attrs@);
                    lemma_first_from_flags(bag0, b6, (|a: BindgenAttr| a is Constructor), 0);
                }
                if ctor.is_some() {
                    let class_ty: &Type = match js_ret {
                        Some(t) => t,
                        None => {
                            return Err(
                                Diagnostic::span_error(
                                    err_span,
                                    "constructor returns must be bare types",
                                ),
                            );
                        },
                    };
                    let class_path = match class_ty {
                        Type::Path { qself, path } => {
                            if *qself {
                                return Err(
                                    Diagnostic::span_error(
                                        err_span,
                                        "return value of constructor must be a bare path",
                                    ),
                                );
                            }
                            path
                        },
                        _ => {
                            return Err(
                                Diagnostic::span_error(
                                    err_span,
                                    "return value of constructor must be a bare path",
                                ),
                            );
                        },
                    };
                    let class_ident = match extract_path_ident(class_path) {
                        Ok(s) => s,
                        Err(d) => {
                            return Err(d);
                        },
                    };
                    let ghost b7 = opts.attrs@;
                    let jc = opts.js_class();
                    proof {
                        lemma_accessor_marks_monotone(
                            b7,
                            opts.attrs@,
                            (|a: BindgenAttr| a is JsClass),
                        );
                        lemma_flags_monotone_trans(bag0, b7, opts.attrs@);
                        lemma_first_from_flags(bag0, b7, (|a: BindgenAttr| a is JsClass), 0);
                    }
                    let class_name = match jc {
                        Some((s, sp)) => s,
                        None => class_ident,
                    };
                    proof {
                        lemma_first_from_in_range(bag0, (|a: BindgenAttr| a is JsClass), 0);
                        assert(class_name@ == js_class_or(bag0, class_path.segments@[0].ident@));
                    }
                    let out = crate::ast::ImportFunctionKind::Method {
                        class: class_name,
                        ty: class_ty.clone(),
                        kind: crate::ast::MethodKind::Constructor,
                    };
                    proof {
                        assert(import_kind_matches(bag0, wasm_args@, *js_ret, out));
                    }
                    out
                } else {
                    proof {
                        assert(import_kind_matches(
                            bag0,
                            wasm_args@,
                            *js_ret,
                            crate::ast::ImportFunctionKind::Normal,
                        ));
                    }
                    crate::ast::ImportFunctionKind::Normal
                }
            }
        };
        Ok(r)
    }

    /// Lowers a foreign function's signature and reads its mode attributes:
    /// the lowered function, the catch and variadic switches, the
    /// host-visible return (unwrapped when catching), and the operation
    /// flavour.
    #[verifier::rlimit(100)]
    #[verifier::spinoff_prover]
    fn lower_import_signature(
        ident: &String,
        ident_span: Span,
        err_span: Span,
        decl: FnDecl,
        attrs: Vec<Attribute>,
        vis_pub: bool,
        opts: &mut BindgenAttrs,
    ) -> (r: Result<(Function, bool, bool, Option<Type>, OperationKind), Diagnostic>)
        requires
            args_wf(decl.inputs@, false),
        ensures
            flags_monotone(old(opts).attrs@, final(opts).attrs@),
            r is Ok <==> (decl_lowering_ok(decl) && (first_match(
                old(opts).attrs@,
                (|a: BindgenAttr| a is Catch),
            ) is Some ==> ftp_ok(decl.output))),
            r is Ok ==> {
                let (wasm, catch, variadic, js_ret, op_kind) = r->Ok_0;
                &&& catch == (first_match(old(opts).attrs@, (|a: BindgenAttr| a is Catch)) is Some)
                &&& variadic == (first_match(
                    old(opts).attrs@,
                    (|a: BindgenAttr| a is Variadic),
                ) is Some)
                &&& op_kind == spec_operation_kind(old(opts).attrs@)
                &&& args_lowered(decl.inputs@, Option::None, wasm.arguments@)
                &&& ret_lowered(decl.output, Option::None, wasm.ret)
                &&& lowered_name_ok(old(opts).attrs@, ident@, ident_span, wasm)
                &&& wasm.rust_attrs == attrs
                &&& wasm.rust_vis_pub == vis_pub
                &&& (catch ==> ftp_ok(wasm.ret) && ftp_result(wasm.ret, js_ret))
                &&& (!catch ==> crate::ast::opt_type_eq(js_ret, wasm.ret))
            },
    {
        let ghost bag0 = opts.attrs@;
        let wasm_pair = match function_from_decl(
            ident,
            ident_span,
            opts,
            decl,
            attrs,
            vis_pub,
            false,
            None,
        ) {
            Ok(p) => p,
            Err(d) => {
                return Err(d);
            },
        };
        let wasm = wasm_pair.0;
        proof {
            lemma_accessor_marks_monotone(bag0, opts.attrs@, (|a: BindgenAttr| a is JsName));
        }
        let ghost b1 = opts.attrs@;
        let catch_sp = opts.catch();
        let catch = catch_sp.is_some();
        proof {
            lemma_accessor_marks_monotone(b1, opts.attrs@, (|a: BindgenAttr| a is Catch));
            lemma_flags_monotone_trans(bag0, b1, opts.attrs@);
            lemma_first_from_flags(bag0, b1, (|a: BindgenAttr| a is Catch), 0);
        }
        let ghost b2 = opts.attrs@;
        let variadic_sp = opts.variadic();
        let variadic = variadic_sp.is_some();
        proof {
            lemma_accessor_marks_monotone(b2, opts.attrs@, (|a: BindgenAttr| a is Variadic));
            lemma_flags_monotone_trans(bag0, b2, opts.attrs@);
            lemma_first_from_flags(bag0, b2, (|a: BindgenAttr| a is Variadic), 0);
        }
        let js_ret: Option<Type> = if catch {
            match extract_first_ty_param(wasm.ret.as_ref(), err_span) {
                Ok(t) => t,
                Err(d) => {
                    proof {
                        lemma_ftp_shape_eq(wasm.ret, decl.output);
                    }
                    return Err(d);
                },
            }
        } else {
            match &wasm.ret {
                Some(t) => {
                    proof {
                        crate::ast::lemma_type_eq_reflexive(wasm.ret->0);
                    }
                    Some(t.clone())
                },
                None => None,
            }
        };
        proof {
            if catch {
                lemma_ftp_shape_eq(wasm.ret, decl.output);
            }
        }
        let ghost b3 = opts.attrs@;
        let op_kind = operation_kind(opts);
        proof {
            lemma_flags_monotone_trans(bag0, b3, opts.attrs@);
            lemma_spec_operation_kind_stable(bag0, b3);
        }
        Ok((wasm, catch, variadic, js_ret, op_kind))
    }

    /// Lowers a declared foreign function into an import, deciding its
    /// dispatch, its host return type, its flags and its mangled shim
    /// symbol, and auditing its attribute bag.
    #[verifier::rlimit(100)]
    #[verifier::spinoff_prover]
    pub fn convert(
        self,
        state: &mut crate::attrs::AttributeParseState,
        opts: BindgenAttrs,
        module: &crate::ast::ImportModule,
    ) -> (r: Result<crate::ast::ImportKind, Diagnostic>)
        requires
            args_wf(self.decl.inputs@, false),
            old(state).checks < usize::MAX,
        ensures
            final(state).parsed == old(state).parsed,
            final(state).strict == old(state).strict,
            old(state).checks <= final(state).checks <= old(state).checks + 1,
            r is Ok ==> final(state).checks == old(state).checks + 1,
            structural_final_conflict(opts.attrs@) ==> r is Err,
            r is Ok ==> foreign_fn_convert_ok(self, opts.attrs@),
            !old(state).strict ==> (r is Ok <==> foreign_fn_convert_ok(self, opts.attrs@)),
            r is Ok ==> (r->Ok_0 matches crate::ast::ImportKind::Function(f) && {
                let entries = opts.attrs@;
                &&& f.catch == (first_match(entries, (|a: BindgenAttr| a is Catch)) is Some)
                &&& f.variadic == (first_match(entries, (|a: BindgenAttr| a is Variadic)) is Some)
                &&& f.structural == (first_match(
                    entries,
                    (|a: BindgenAttr| a is StructuralDispatch),
                ) is Some || first_match(entries, (|a: BindgenAttr| a is Final)) is None)
                &&& f.rust_name == self.ident
                &&& f.doc_comment is None
                &&& f.shim@ == crate::symbols::spec_import_function_shim(
                    f.function.name@,
                    kind_ns(f.kind),
                    self.ident@,
                    *module,
                )
                &&& args_lowered(self.decl.inputs@, Option::None, f.function.arguments@)
                &&& ret_lowered(self.decl.output, Option::None, f.function.ret)
                &&& lowered_name_ok(entries, self.ident@, self.ident_span, f.function)
                &&& (f.catch ==> ftp_ok(f.function.ret) && ftp_result(f.function.ret, f.js_ret))
                &&& (!f.catch ==> crate::ast::opt_type_eq(f.js_ret, f.function.ret))
                &&& import_kind_matches(entries, f.function.arguments@, f.js_ret, f.kind)
            }),
    {
        let ghost bag0 = opts.attrs@;
        let mut opts = opts;
        let lowered = match Self::lower_import_signature(
            &self.ident,
            self.ident_span,
            self.span,
            self.decl,
            self.attrs,
            self.vis_pub,
            &mut opts,
        ) {
            Ok(t) => t,
            Err(d) => {
                return Err(d);
            },
        };
        let (wasm, catch, variadic, js_ret, op_kind) = lowered;
        proof {
            lemma_kind_accept_bridge(
                bag0,
                self.decl.inputs@,
                self.decl.output,
                wasm.arguments@,
                wasm.ret,
                js_ret,
            );
        }
        let kind: crate::ast::ImportFunctionKind = match Self::decide_import_kind(
            &mut opts,
            Ghost(bag0),
            &wasm.arguments,
            &js_ret,
            op_kind,
            self.span,
        ) {
            Ok(k) => k,
            Err(d) => {
                return Err(d);
            },
        };
        let ns_class: Option<String> = match &kind {
            crate::ast::ImportFunctionKind::Normal => None,
            crate::ast::ImportFunctionKind::Method { class, ty, kind: mk } => Some(class.clone()),
        };
        let shim = crate::symbols::import_function_shim(
            wasm.name.as_str(),
            &ns_class,
            self.ident.as_str(),
            module,
        );
        let ghost b8 = opts.attrs@;
        let fin = opts.final_attr();
        proof {
            lemma_accessor_marks_monotone(b8, opts.attrs@, (|a: BindgenAttr| a is Final));
            lemma_flags_monotone_trans(bag0, b8, opts.attrs@);
            lemma_first_from_flags(bag0, b8, (|a: BindgenAttr| a is Final), 0);
        }
        let ghost b9 = opts.attrs@;
        let structural_sp = opts.structural();
        proof {
            lemma_accessor_marks_monotone(
                b9,
                opts.attrs@,
                (|a: BindgenAttr| a is StructuralDispatch),
            );
            lemma_flags_monotone_trans(bag0, b9, opts.attrs@);
            lemma_first_from_flags(bag0, b9, (|a: BindgenAttr| a is StructuralDispatch), 0);
        }
        match fin {
            Some(fsp) => {
                if structural_sp.is_some() {
                    return Err(
                        Diagnostic::span_error(fsp, "cannot specify both `structural` and `final`"),
                    );
                }
            },
            None => {},
        }
        let structural = structural_sp.is_some() || !fin.is_some();
        let impfn = crate::ast::ImportFunction {
            function: wasm,
            kind,
            js_ret,
            catch,
            variadic,
            structural,
            rust_name: self.ident,
            shim,
            doc_comment: None,
        };
        proof {
            assert(impfn.catch == (first_match(bag0, (|a: BindgenAttr| a is Catch)) is Some));
            assert(impfn.variadic == (first_match(bag0, (|a: BindgenAttr| a is Variadic)) is Some));
            assert(impfn.structural == (first_match(
                bag0,
                (|a: BindgenAttr| a is StructuralDispatch),
            ) is Some || first_match(bag0, (|a: BindgenAttr| a is Final)) is None));
            assert(kind_ns(impfn.kind) == ns_class);
            assert(impfn.shim@ == crate::symbols::spec_import_function_shim(
                impfn.function.name@,
                kind_ns(impfn.kind),
                self.ident@,
                *module,
            ));
            assert(import_kind_matches(bag0, impfn.function.arguments@, impfn.js_ret, impfn.kind));
            assert(lowered_name_ok(bag0, self.ident@, self.ident_span, impfn.function));
            assert(impfn.catch ==> ftp_ok(impfn.function.ret) && ftp_result(
                impfn.function.ret,
                impfn.js_ret,
            ));
            assert(!impfn.catch ==> crate::ast::opt_type_eq(impfn.js_ret, impfn.function.ret));
        }
        let ret = crate::ast::ImportKind::Function(impfn);
        match opts.check_used(state) {
            Ok(u) => {},
            Err(d) => {
                return Err(d);
            },
        }
        Ok(ret)
    }
}

impl crate::decl::ForeignItemType {
    /// Lowers a declared foreign type: it carries its instance-check shim
    /// symbol and collects every `extends` and `vendor_prefix` attribute.
    pub fn convert(
        self,
        state: &mut crate::attrs::AttributeParseState,
        opts: BindgenAttrs,
    ) -> (r: Result<crate::ast::ImportKind, Diagnostic>)
        requires
            old(state).checks < usize::MAX,
        ensures
            final(state).parsed == old(state).parsed,
            final(state).strict == old(state).strict,
            old(state).checks <= final(state).checks <= old(state).checks + 1,
            r is Ok ==> final(state).checks == old(state).checks + 1,
            !old(state).strict ==> (r is Ok <==> first_match(
                opts.attrs@,
                (|a: BindgenAttr| a is Variadic),
            ) is None),
            r is Ok ==> (r->Ok_0 matches crate::ast::ImportKind::Type(t) && {
                &&& t.rust_name == self.ident
                &&& t.vis_pub == self.vis_pub
                &&& t.attrs == self.attrs
                &&& t.doc_comment is None
                &&& t.instanceof_shim@ == crate::symbols::spec_instanceof_shim(self.ident@)
                &&& t.js_name@ == struct_js_name(opts.attrs@, self.ident@)
                &&& (match first_match(opts.attrs@, (|a: BindgenAttr| a is IsTypeOf)) {
                    Some(i) => t.is_type_of matches Some(s) && s@ == opts.attrs@[i].1->IsTypeOf_1@,
                    None => t.is_type_of is None,
                })
                &&& crate::attrs::paths_eq(t.extends@, crate::attrs::extends_of(opts.attrs@))
                &&& t.vendor_prefixes@ == crate::attrs::vendor_prefixes_of(opts.attrs@)
            }),
    {
        let ghost bag0 = opts.attrs@;
        let mut opts = opts;
        match assert_not_variadic(&mut opts) {
            Ok(u) => {},
            Err(d) => {
                return Err(d);
            },
        }
        proof {
            lemma_accessor_marks_monotone(bag0, opts.attrs@, (|a: BindgenAttr| a is Variadic));
            lemma_first_from_flags(bag0, opts.attrs@, (|a: BindgenAttr| a is JsName), 0);
            lemma_first_from_in_range(bag0, (|a: BindgenAttr| a is JsName), 0);
        }
        let ghost b1 = opts.attrs@;
        let named = opts.js_name();
        let js_name = match named {
            Some((s, sp)) => s,
            None => self.ident.clone(),
        };
        proof {
            lemma_accessor_marks_monotone(b1, opts.attrs@, (|a: BindgenAttr| a is JsName));
            lemma_flags_monotone_trans(bag0, b1, opts.attrs@);
            lemma_first_from_flags(bag0, b1, (|a: BindgenAttr| a is JsName), 0);
            lemma_first_from_flags(bag0, opts.attrs@, (|a: BindgenAttr| a is IsTypeOf), 0);
            lemma_first_from_in_range(bag0, (|a: BindgenAttr| a is IsTypeOf), 0);
        }
        let ghost b2 = opts.attrs@;
        let is_type_of = opts.is_type_of();
        proof {
            lemma_accessor_marks_monotone(b2, opts.attrs@, (|a: BindgenAttr| a is IsTypeOf));
            lemma_flags_monotone_trans(bag0, b2, opts.attrs@);
        }
        let shim = crate::symbols::instanceof_shim(self.ident.as_str());
        let ghost b3 = opts.attrs@;
        let collected = opts.collect_extends_and_prefixes();
        proof {
            lemma_extends_of_flags(bag0, b3);
            lemma_vendor_of_flags(bag0, b3);
        }
        let (extends, vendor_prefixes) = collected;
        let ret = crate::ast::ImportKind::Type(
            crate::ast::ImportType {
                vis_pub: self.vis_pub,
                attrs: self.attrs,
                doc_comment: None,
                instanceof_shim: shim,
                is_type_of,
                rust_name: self.ident,
                js_name,
                extends,
                vendor_prefixes,
            },
        );
        match opts.check_used(state) {
            Ok(u) => {},
            Err(d) => {
                return Err(d);
            },
        }
        Ok(ret)
    }
}

/// Flag changes keep the collected `extends` payloads.
proof fn lemma_extends_of_flags(
    pre: Seq<(bool, BindgenAttr)>,
    post: Seq<(bool, BindgenAttr)>,
)
    requires
        flags_monotone(pre, post),
    ensures
        crate::attrs::extends_of(post) == crate::attrs::extends_of(pre),
    decreases pre.len(),
{
    if pre.len() > 0 {
        assert(post.drop_last().len() == pre.drop_last().len());
        assert forall|i: int| 0 <= i < pre.len() - 1 implies (#[trigger] post.drop_last()[i]).1
            == pre.drop_last()[i].1 && (pre.drop_last()[i].0 ==> post.drop_last()[i].0) by {
            assert(post[i].1 == pre[i].1);
            assert(pre[i].0 ==> post[i].0);
        }
        lemma_extends_of_flags(pre.drop_last(), post.drop_last());
        assert(post.last().1 == pre.last().1);
    }
}

/// Flag changes keep the collected `vendor_prefix` payloads.
proof fn lemma_vendor_of_flags(
    pre: Seq<(bool, BindgenAttr)>,
    post: Seq<(bool, BindgenAttr)>,
)
    requires
        flags_monotone(pre, post),
    ensures
        crate::attrs::vendor_prefixes_of(post) == crate::attrs::vendor_prefixes_of(pre),
    decreases pre.len(),
{
    if pre.len() > 0 {
        assert forall|i: int| 0 <= i < pre.len() - 1 implies (#[trigger] post.drop_last()[i]).1
            == pre.drop_last()[i].1 && (pre.drop_last()[i].0 ==> post.drop_last()[i].0) by {
            assert(post[i].1 == pre[i].1);
            assert(pre[i].0 ==> post[i].0);
        }
        lemma_vendor_of_flags(pre.drop_last(), post.drop_last());
        assert(post.last().1 == pre.last().1);
    }
}

impl crate::decl::ForeignItemStatic {
    /// Lowers a declared foreign static: it must be immutable, and carries
    /// its accessor shim symbol.
    pub fn convert(
        self,
        state: &mut crate::attrs::AttributeParseState,
        opts: BindgenAttrs,
        module: &crate::ast::ImportModule,
    ) -> (r: Result<crate::ast::ImportKind, Diagnostic>)
        requires
            old(state).checks < usize::MAX,
        ensures
            final(state).parsed == old(state).parsed,
            final(state).strict == old(state).strict,
            old(state).checks <= final(state).checks <= old(state).checks + 1,
            r is Ok ==> final(state).checks == old(state).checks + 1,
            self.mutability is Some ==> r is Err,
            !old(state).strict ==> (r is Ok <==> (self.mutability is None && first_match(
                opts.attrs@,
                (|a: BindgenAttr| a is Variadic),
            ) is None)),
            r is Ok ==> (r->Ok_0 matches crate::ast::ImportKind::Static(st) && {
                &&& st.rust_name == self.ident
                &&& st.vis_pub == self.vis_pub
                &&& type_eq(st.ty, self.ty)
                &&& st.js_name@ == struct_js_name(opts.attrs@, self.ident@)
                &&& st.shim@ == crate::symbols::spec_static_accessor_shim(
                    self.ident@,
                    st.js_name@,
                    *module,
                )
            }),
    {
        match self.mutability {
            Some(sp) => {
                return Err(Diagnostic::span_error(sp, "cannot import mutable globals yet"));
            },
            None => {},
        }
        let ghost bag0 = opts.attrs@;
        let mut opts = opts;
        match assert_not_variadic(&mut opts) {
            Ok(u) => {},
            Err(d) => {
                return Err(d);
            },
        }
        proof {
            lemma_accessor_marks_monotone(bag0, opts.attrs@, (|a: BindgenAttr| a is Variadic));
            lemma_first_from_flags(bag0, opts.attrs@, (|a: BindgenAttr| a is JsName), 0);
            lemma_first_from_in_range(bag0, (|a: BindgenAttr| a is JsName), 0);
        }
        let named = opts.js_name();
        let js_name = match named {
            Some((s, sp)) => s,
            None => self.ident.clone(),
        };
        let shim = crate::symbols::static_accessor_shim(
            self.ident.as_str(),
            js_name.as_str(),
            module,
        );
        proof {
            crate::ast::lemma_type_eq_reflexive(self.ty);
        }
        let ret = crate::ast::ImportKind::Static(
            crate::ast::ImportStatic {
                ty: self.ty,
                vis_pub: self.vis_pub,
                rust_name: self.ident,
                js_name,
                shim,
            },
        );
        match opts.check_used(state) {
            Ok(u) => {},
            Err(d) => {
                return Err(d);
            },
        }
        Ok(ret)
    }
}

impl crate::decl::ItemConst {
    /// Lowers a declared constant: accepted only as a string literal marked
    /// `typescript_custom_section`, whose contents join the program's
    /// type-declaration snippets.
    pub fn macro_parse(
        self,
        program: &mut crate::ast::Program,
        state: &mut crate::attrs::AttributeParseState,
        opts: BindgenAttrs,
    ) -> (r: Result<(), Diagnostic>)
        requires
            old(state).checks < usize::MAX,
        ensures
            final(state).parsed == old(state).parsed,
            final(state).strict == old(state).strict,
            old(state).checks <= final(state).checks <= old(state).checks + 1,
            r is Ok ==> final(state).checks == old(state).checks + 1,
            !old(state).strict ==> (r is Ok <==> (first_match(
                opts.attrs@,
                (|a: BindgenAttr| a is TypescriptCustomSection),
            ) is Some && self.str_value is Some)),
            r is Err && !old(state).strict ==> final(program).typescript_custom_sections@ == old(
                program,
            ).typescript_custom_sections@,
            r is Ok ==> final(program).typescript_custom_sections@ == old(
                program,
            ).typescript_custom_sections@.push(self.str_value->0),
            final(program).exports@ == old(program).exports@,
            final(program).imports@ == old(program).imports@,
            final(program).structs@ == old(program).structs@,
            final(program).enums@ == old(program).enums@,
            final(program).inline_js@ == old(program).inline_js@,
    {
        let mut opts = opts;
        let tcs = opts.typescript_custom_section();
        if !tcs.is_some() {
            return Err(
                Diagnostic::span_error(
                    self.span,
                    "#[wasm_bindgen] will not work on constants unless you are defining a #[wasm_bindgen(typescript_custom_section)].",
                ),
            );
        }
        match self.str_value {
            Some(s) => {
                program.typescript_custom_sections.push(s);
            },
            None => {
                return Err(
                    Diagnostic::span_error(
                        self.span,
                        "Expected a string literal to be used with #[wasm_bindgen(typescript_custom_section)].",
                    ),
                );
            },
        }
        match opts.check_used(state) {
            Ok(u) => {},
            Err(d) => {
                return Err(d);
            },
        }
        Ok(())
    }
}

impl crate::decl::ImplItemMethod {
    /// Lowers one public method of an inherent impl block into an export.
    /// Private methods are accepted and contribute nothing.
    pub fn macro_parse(
        self,
        program: &mut crate::ast::Program,
        class: &String,
        js_class: &String,
        state: &mut crate::attrs::AttributeParseState,
    ) -> (r: Result<(), Diagnostic>)
        requires
            args_wf(self.decl.inputs@, true),
            self.defaultness is None,
            old(state).parsed + self.attrs@.len() + 1 < usize::MAX,
            old(state).checks + self.attrs@.len() + 1 < usize::MAX,
        ensures
            final(state).strict == old(state).strict,
            r is Ok ==> final(state).parsed - final(state).checks == old(state).parsed - old(
                state,
            ).checks,
            self.vis_pub && self.constness is Some ==> r is Err,
            self.vis_pub && self.unsafety is Some ==> r is Err,
            !old(state).strict ==> (r is Ok <==> (!self.vis_pub || (self.constness is None
                && self.unsafety is None && crate::attrs::spec_find_ok(self.attrs@)
                && decl_lowering_ok(self.decl)))),
            !self.vis_pub ==> (r is Ok && *final(program) == *old(program) && *final(state) == *old(
                state,
            )),
            final(program).imports@ == old(program).imports@,
            final(program).structs@ == old(program).structs@,
            final(program).enums@ == old(program).enums@,
            final(program).typescript_custom_sections@ == old(
                program,
            ).typescript_custom_sections@,
            final(program).inline_js@ == old(program).inline_js@,
            r is Ok && self.vis_pub ==> final(program).exports@.len() == old(
                program,
            ).exports@.len() + 1,
            r is Ok && self.vis_pub ==> final(program).exports@.subrange(
                0,
                old(program).exports@.len() as int,
            ) == old(program).exports@,
            r is Ok && self.vis_pub ==> {
                let ex = final(program).exports@.last();
                let raws = crate::attrs::spec_collect_raws(self.attrs@)->Some_0;
                &&& ex.rust_name == self.ident
                &&& ex.rust_class matches Some(c) && c@ == class@
                &&& ex.js_class matches Some(jc) && jc@ == js_class@
                &&& !ex.start
                &&& ex.method_self == spec_method_self(self.decl.inputs@)
                &&& args_lowered(self.decl.inputs@, Option::Some(class@), ex.function.arguments@)
                &&& ret_lowered(self.decl.output, Option::Some(class@), ex.function.ret)
                &&& (crate::attrs::raw_has(raws, "constructor"@) ==> ex.method_kind
                    is Constructor)
                &&& (!crate::attrs::raw_has(raws, "constructor"@) ==> (ex.method_kind
                    matches crate::ast::MethodKind::Operation(op) && op.is_static == (
                spec_method_self(self.decl.inputs@) is None)))
            },
    {
        if !self.vis_pub {
            return Ok(());
        }
        match self.constness {
            Some(sp) => {
                return Err(Diagnostic::span_error(sp, "can only #[wasm_bindgen] non-const functions"));
            },
            None => {},
        }
        match self.unsafety {
            Some(sp) => {
                return Err(Diagnostic::span_error(sp, "can only bindgen safe functions"));
            },
            None => {},
        }
        let mut attrs = self.attrs;
        let found = BindgenAttrs::find(state, &mut attrs);
        let mut opts = match found {
            Ok(b) => b,
            Err(d) => {
                return Err(d);
            },
        };
        let ghost raws = crate::attrs::spec_collect_raws(self.attrs@)->Some_0;
        let ghost bag0 = opts.attrs@;
        let comments = extract_doc_comments(&attrs);
        let pair = match function_from_decl(
            &self.ident,
            self.ident_span,
            &mut opts,
            self.decl,
            attrs,
            self.vis_pub,
            true,
            Some(class),
        ) {
            Ok(p) => p,
            Err(d) => {
                return Err(d);
            },
        };
        let (function, method_self) = pair;
        proof {
            lemma_accessor_marks_monotone(bag0, opts.attrs@, (|a: BindgenAttr| a is JsName));
            lemma_first_from_flags(bag0, opts.attrs@, (|a: BindgenAttr| a is Constructor), 0);
            crate::attrs::lemma_bridge_constructor(bag0, raws);
        }
        let ghost b1 = opts.attrs@;
        let ctor = opts.constructor();
        proof {
            lemma_accessor_marks_monotone(b1, opts.attrs@, (|a: BindgenAttr| a is Constructor));
            lemma_flags_monotone_trans(bag0, b1, opts.attrs@);
        }
        let method_kind = if ctor.is_some() {
            crate::ast::MethodKind::Constructor
        } else {
            let is_static = !method_self.is_some();
            let kind = operation_kind(&mut opts);
            crate::ast::MethodKind::Operation(crate::ast::Operation { is_static, kind })
        };
        let ghost pre_exports = program.exports@;
        program.exports.push(
            crate::ast::Export {
                comments,
                function,
                js_class: Some(js_class.clone()),
                method_kind,
                method_self,
                rust_class: Some(class.clone()),
                rust_name: self.ident,
                start: false,
            },
        );
        proof {
            assert(program.exports@.subrange(0, pre_exports.len() as int) =~= pre_exports);
        }
        match opts.check_used(state) {
            Ok(u) => {},
            Err(d) => {
                return Err(d);
            },
        }
        Ok(())
    }
}

/// Setting consumed flags changes no class-name fallback.
pub proof fn lemma_js_class_or_stable(
    pre: Seq<(bool, BindgenAttr)>,
    post: Seq<(bool, BindgenAttr)>,
    fallback: Seq<char>,
)
    requires
        flags_monotone(pre, post),
    ensures
        js_class_or(post, fallback) == js_class_or(pre, fallback),
{
    lemma_first_from_flags(pre, post, (|a: BindgenAttr| a is JsClass), 0);
    lemma_first_from_in_range(pre, (|a: BindgenAttr| a is JsClass), 0);
}

/// What an impl block must look like to be accepted: a plain inherent impl
/// of a bare single-segment type, holding methods only.
pub open spec fn impl_accept(i: crate::decl::ItemImpl) -> bool {
    &&& i.defaultness is None
    &&& i.unsafety is None
    &&& i.trait_span is None
    &&& i.generics_count == 0
    &&& bare_path_ty(i.self_ty)
    &&& forall|j: int| 0 <= j < i.items@.len() ==> (#[trigger] i.items@[j]) is MethodItem
}

/// The declared class name of an accepted impl block.
pub open spec fn impl_class(i: crate::decl::ItemImpl) -> Seq<char>
    recommends
        bare_path_ty(i.self_ty),
{
    i.self_ty->path.segments@[0].ident@
}

/// Sets up one impl item for method lowering: only plain methods are
/// accepted; each gets the class pair attached that the method lowering
/// reads.
pub fn prepare_for_impl_recursion(
    item: &mut crate::decl::ImplItem,
    class: &String,
    impl_opts: &mut BindgenAttrs,
) -> (r: Result<(), Diagnostic>)
    ensures
        flags_monotone(old(impl_opts).attrs@, final(impl_opts).attrs@),
        r is Ok <==> *old(item) is MethodItem,
        r is Ok ==> ((*old(item)) matches crate::decl::ImplItem::MethodItem(m) && ((*final(item))
            matches crate::decl::ImplItem::MethodItem(pm) && {
            &&& pm.ident == m.ident
            &&& pm.ident_span == m.ident_span
            &&& pm.vis_pub == m.vis_pub
            &&& pm.defaultness == m.defaultness
            &&& pm.constness == m.constness
            &&& pm.unsafety == m.unsafety
            &&& pm.decl == m.decl
            &&& pm.attrs == m.attrs
            &&& pm.span == m.span
            &&& (pm.class_marker matches Some(p) && p.0@ == class@ && p.1@ == js_class_or(
                old(impl_opts).attrs@,
                class@,
            ))
        })),
        r is Err ==> *final(item) == *old(item),
{
    match item {
        crate::decl::ImplItem::MethodItem(m) => {
            let ghost b0 = impl_opts.attrs@;
            let jc = impl_opts.js_class();
            proof {
                lemma_accessor_marks_monotone(b0, impl_opts.attrs@, (|a: BindgenAttr| a is JsClass));
                lemma_first_from_in_range(b0, (|a: BindgenAttr| a is JsClass), 0);
            }
            let js_class = match jc {
                Some((s, sp)) => s,
                None => class.clone(),
            };
            m.class_marker = Some((class.clone(), js_class));
            Ok(())
        },
        crate::decl::ImplItem::ConstItem(sp) => Err(
            Diagnostic::span_error(*sp, "const definitions aren't supported with #[wasm_bindgen]"),
        ),
        crate::decl::ImplItem::TypeItem(sp) => Err(
            Diagnostic::span_error(
                *sp,
                "type definitions in impls aren't supported with #[wasm_bindgen]",
            ),
        ),
        crate::decl::ImplItem::ExistentialItem(sp) => Err(
            Diagnostic::span_error(*sp, "existentials in impls aren't supported with #[wasm_bindgen]"),
        ),
        crate::decl::ImplItem::MacroItem(sp) => Err(
            Diagnostic::span_error(*sp, "macros in impls aren't supported"),
        ),
    }
}

impl crate::decl::ItemImpl {
    /// Validates an inherent impl block and prepares each of its methods for
    /// lowering, attaching the class pair.  The block must be a plain impl
    /// of a single-identifier type without generics.
    #[verifier::loop_isolation(false)]
    pub fn macro_parse(
        &mut self,
        state: &mut crate::attrs::AttributeParseState,
        opts: BindgenAttrs,
    ) -> (r: Result<(), Diagnostic>)
        requires
            old(state).checks < usize::MAX,
        ensures
            final(state).parsed == old(state).parsed,
            final(state).strict == old(state).strict,
            old(state).checks <= final(state).checks <= old(state).checks + 1,
            r is Ok ==> final(state).checks == old(state).checks + 1,
            r is Ok ==> impl_accept(*old(self)),
            !old(state).strict ==> (r is Ok <==> impl_accept(*old(self))),
            r is Ok ==> final(self).items@.len() == old(self).items@.len(),
            r is Ok ==> (forall|j: int|
                0 <= j < old(self).items@.len() ==> ((#[trigger] old(self).items@[j])
                    matches crate::decl::ImplItem::MethodItem(m) ==> (final(self).items@[j]
                    matches crate::decl::ImplItem::MethodItem(pm) && {
                    &&& pm.ident == m.ident
                    &&& pm.ident_span == m.ident_span
                    &&& pm.vis_pub == m.vis_pub
                    &&& pm.defaultness == m.defaultness
                    &&& pm.constness == m.constness
                    &&& pm.unsafety == m.unsafety
                    &&& pm.decl == m.decl
                    &&& pm.attrs == m.attrs
                    &&& pm.span == m.span
                    &&& (pm.class_marker matches Some(p) && p.0@ == impl_class(*old(self))
                        && p.1@ == js_class_or(opts.attrs@, impl_class(*old(self))))
                }))),
    {
        match self.defaultness {
            Some(sp) => {
                return Err(Diagnostic::span_error(sp, "#[wasm_bindgen] default impls are not supported"));
            },
            None => {},
        }
        match self.unsafety {
            Some(sp) => {
                return Err(Diagnostic::span_error(sp, "#[wasm_bindgen] unsafe impls are not supported"));
            },
            None => {},
        }
        match self.trait_span {
            Some(sp) => {
                return Err(Diagnostic::span_error(sp, "#[wasm_bindgen] trait impls are not supported"));
            },
            None => {},
        }
        if self.generics_count > 0 {
            return Err(
                Diagnostic::span_error(
                    self.generics_span,
                    "#[wasm_bindgen] generic impls aren't supported",
                ),
            );
        }
        let name = match &self.self_ty {
            Type::Path { qself, path } => {
                if *qself {
                    return Err(
                        Diagnostic::span_error(
                            self.span,
                            "unsupported self type in #[wasm_bindgen] impl",
                        ),
                    );
                }
                match extract_path_ident(path) {
                    Ok(s) => s,
                    Err(d) => {
                        return Err(d);
                    },
                }
            },
            _ => {
                return Err(
                    Diagnostic::span_error(self.span, "unsupported self type in #[wasm_bindgen] impl"),
                );
            },
        };
        let mut opts = opts;
        let ghost bag0 = opts.attrs@;
        let mut errors: Vec<Diagnostic> = Vec::new();
        let mut i: usize = 0;
        let items_len = self.items.len();
        proof {
            assert(old(self).defaultness is None);
            assert(old(self).unsafety is None);
            assert(old(self).trait_span is None);
            assert(old(self).generics_count == 0);
            assert(bare_path_ty(old(self).self_ty));
            assert(name@ == impl_class(*old(self)));
            assert(flags_monotone(bag0, opts.attrs@));
        }
        while i < items_len
            invariant
                0 <= i <= items_len,
                items_len == self.items@.len(),
                self.items@.len() == old(self).items@.len(),
                flags_monotone(bag0, opts.attrs@),
                forall|j: int|
                    i <= j < old(self).items@.len() ==> (#[trigger] self.items@[j]) == old(
                        self,
                    ).items@[j],
                forall|j: int|
                    0 <= j < old(self).items@.len() ==> ((#[trigger] self.items@[j])
                        is MethodItem) == (old(self).items@[j] is MethodItem),
                forall|j: int|
                    0 <= j < i ==> ((#[trigger] old(self).items@[j])
                        matches crate::decl::ImplItem::MethodItem(m) ==> (self.items@[j]
                        matches crate::decl::ImplItem::MethodItem(pm) && {
                        &&& pm.ident == m.ident
                        &&& pm.ident_span == m.ident_span
                        &&& pm.vis_pub == m.vis_pub
                        &&& pm.defaultness == m.defaultness
                        &&& pm.constness == m.constness
                        &&& pm.unsafety == m.unsafety
                        &&& pm.decl == m.decl
                        &&& pm.attrs == m.attrs
                        &&& pm.span == m.span
                        &&& (pm.class_marker matches Some(p) && p.0@ == impl_class(*old(self))
                            && p.1@ == js_class_or(bag0, impl_class(*old(self))))
                    })),
                state == old(state),
                errors@.len() == 0 <==> (forall|j: int|
                    0 <= j < i ==> (#[trigger] old(self).items@[j]) is MethodItem),
            decreases items_len - i,
        {
            let ghost cur = opts.attrs@;
            let item_ref = &mut self.items[i];
            match prepare_for_impl_recursion(item_ref, &name, &mut opts) {
                Ok(u) => {
                    proof {
                        lemma_js_class_or_stable(bag0, cur, impl_class(*old(self)));
                        lemma_flags_monotone_trans(bag0, cur, opts.attrs@);
                    }
                },
                Err(d) => {
                    errors.push(d);
                    proof {
                        lemma_flags_monotone_trans(bag0, cur, opts.attrs@);
                    }
                },
            }
            i = i + 1;
        }
        match Diagnostic::from_vec(errors) {
            Ok(u) => {},
            Err(d) => {
                return Err(d);
            },
        }
        match opts.check_used(state) {
            Ok(u) => {},
            Err(d) => {
                return Err(d);
            },
        }
        Ok(())
    }
}

/// The attribute list of one foreign item.
pub open spec fn foreign_item_attrs(it: crate::decl::ForeignItem) -> Seq<Attribute> {
    match it {
        crate::decl::ForeignItem::ForeignFn(f) => f.attrs@,
        crate::decl::ForeignItem::ForeignTy(t) => t.attrs@,
        crate::decl::ForeignItem::ForeignStatic(s) => s.attrs@,
    }
}

/// The signature well-formedness lowering expects of one foreign item.
pub open spec fn foreign_item_wf(it: crate::decl::ForeignItem) -> bool {
    match it {
        crate::decl::ForeignItem::ForeignFn(f) => args_wf(f.decl.inputs@, false),
        _ => true,
    }
}

impl crate::decl::ForeignItem {
    /// Lowers one item of a foreign block into an import under the block's
    /// module.
    pub fn macro_parse(
        self,
        program: &mut crate::ast::Program,
        state: &mut crate::attrs::AttributeParseState,
        module: crate::ast::ImportModule,
    ) -> (r: Result<(), Diagnostic>)
        requires
            foreign_item_wf(self),
            old(state).parsed + foreign_item_attrs(self).len() + 2 < usize::MAX,
            old(state).checks + foreign_item_attrs(self).len() + 2 < usize::MAX,
        ensures
            final(state).strict == old(state).strict,
            old(state).parsed <= final(state).parsed <= old(state).parsed + foreign_item_attrs(
                self,
            ).len() + 2,
            old(state).checks <= final(state).checks <= old(state).checks + foreign_item_attrs(
                self,
            ).len() + 2,
            r is Ok ==> final(state).parsed - final(state).checks == old(state).parsed - old(
                state,
            ).checks,
            final(program).exports@ == old(program).exports@,
            final(program).structs@ == old(program).structs@,
            final(program).enums@ == old(program).enums@,
            final(program).typescript_custom_sections@ == old(
                program,
            ).typescript_custom_sections@,
            final(program).inline_js@ == old(program).inline_js@,
            r is Ok ==> final(program).imports@.len() == old(program).imports@.len() + 1,
            r is Ok ==> final(program).imports@.subrange(0, old(program).imports@.len() as int)
                == old(program).imports@,
            r is Ok ==> final(program).imports@.last().module == module,
            !old(state).strict ==> (r is Ok <==> foreign_item_ok(self)),
            r is Ok ==> (self is ForeignFn ==> final(program).imports@.last().kind is Function),
            r is Ok ==> (self is ForeignTy ==> final(program).imports@.last().kind is Type),
            r is Ok ==> (self is ForeignStatic ==> final(program).imports@.last().kind is Static),
            r is Ok ==> raw_ns_ok(
                crate::attrs::spec_collect_raws(foreign_item_attrs(self))->Some_0,
                final(program).imports@.last().js_namespace,
            ),
            r is Err ==> final(program).imports@ == old(program).imports@,
    {
        let (kind, js_namespace) = match self {
            crate::decl::ForeignItem::ForeignFn(mut f) => {
                let ghost f0 = f;
                let ghost raws = crate::attrs::spec_collect_raws(f.attrs@)->Some_0;
                let found = BindgenAttrs::find(state, &mut f.attrs);
                let mut item_opts = match found {
                    Ok(b) => b,
                    Err(d) => {
                        return Err(d);
                    },
                };
                let ghost bag0 = item_opts.attrs@;
                proof {
                    crate::attrs::lemma_bridge_js_namespace(bag0, raws);
                    lemma_ff_ok_raw_bridge(f0, bag0, raws);
                }
                let ns = item_opts.js_namespace();
                proof {
                    lemma_accessor_marks_monotone(
                        bag0,
                        item_opts.attrs@,
                        (|a: BindgenAttr| a is JsNamespace),
                    );
                    lemma_ff_ok_flags(f0, bag0, item_opts.attrs@);
                }
                let kind = match f.convert(state, item_opts, &module) {
                    Ok(k) => k,
                    Err(d) => {
                        return Err(d);
                    },
                };
                (kind, ns)
            },
            crate::decl::ForeignItem::ForeignTy(mut t) => {
                let ghost raws = crate::attrs::spec_collect_raws(t.attrs@)->Some_0;
                let found = BindgenAttrs::find(state, &mut t.attrs);
                let mut item_opts = match found {
                    Ok(b) => b,
                    Err(d) => {
                        return Err(d);
                    },
                };
                let ghost bag0 = item_opts.attrs@;
                proof {
                    crate::attrs::lemma_bridge_js_namespace(bag0, raws);
                    crate::attrs::lemma_bridge_variadic(bag0, raws);
                }
                let ns = item_opts.js_namespace();
                proof {
                    lemma_accessor_marks_monotone(
                        bag0,
                        item_opts.attrs@,
                        (|a: BindgenAttr| a is JsNamespace),
                    );
                    lemma_first_from_flags(bag0, item_opts.attrs@, (|a: BindgenAttr| a is Variadic), 0);
                }
                let kind = match t.convert(state, item_opts) {
                    Ok(k) => k,
                    Err(d) => {
                        return Err(d);
                    },
                };
                (kind, ns)
            },
            crate::decl::ForeignItem::ForeignStatic(mut st) => {
                let ghost raws = crate::attrs::spec_collect_raws(st.attrs@)->Some_0;
                let found = BindgenAttrs::find(state, &mut st.attrs);
                let mut item_opts = match found {
                    Ok(b) => b,
                    Err(d) => {
                        return Err(d);
                    },
                };
                let ghost bag0 = item_opts.attrs@;
                proof {
                    crate::attrs::lemma_bridge_js_namespace(bag0, raws);
                    crate::attrs::lemma_bridge_variadic(bag0, raws);
                }
                let ns = item_opts.js_namespace();
                proof {
                    lemma_accessor_marks_monotone(
                        bag0,
                        item_opts.attrs@,
                        (|a: BindgenAttr| a is JsNamespace),
                    );
                    lemma_first_from_flags(bag0, item_opts.attrs@, (|a: BindgenAttr| a is Variadic), 0);
                }
                let kind = match st.convert(state, item_opts, &module) {
                    Ok(k) => k,
                    Err(d) => {
                        return Err(d);
                    },
                };
                (kind, ns)
            },
        };
        let ghost pre_imports = program.imports@;
        program.imports.push(crate::ast::Import { module, js_namespace, kind });
        proof {
            assert(program.imports@.subrange(0, pre_imports.len() as int) =~= pre_imports);
        }
        Ok(())
    }
}

/// Whether a namespace value matches the first `js_namespace` raw keyword.
pub open spec fn raw_ns_ok(raws: Seq<RawAttr>, ns: Option<String>) -> bool {
    match crate::attrs::raw_match(raws, "js_namespace"@) {
        Some(i) => ns matches Some(s) && s@ == crate::attrs::sv_text(raws[i].value),
        None => ns is None,
    }
}

/// The flag-insensitive acceptance of a foreign function is stable under
/// marking.
pub proof fn lemma_ff_ok_flags(
    f: crate::decl::ForeignItemFn,
    pre: Seq<(bool, BindgenAttr)>,
    post: Seq<(bool, BindgenAttr)>,
)
    requires
        flags_monotone(pre, post),
    ensures
        foreign_fn_convert_ok(f, post) == foreign_fn_convert_ok(f, pre),
{
    lemma_first_from_flags(pre, post, (|a: BindgenAttr| a is Catch), 0);
    lemma_first_from_flags(pre, post, (|a: BindgenAttr| a is Method), 0);
    lemma_first_from_flags(pre, post, (|a: BindgenAttr| a is StaticMethodOf), 0);
    lemma_first_from_flags(pre, post, (|a: BindgenAttr| a is Constructor), 0);
    lemma_first_from_flags(pre, post, (|a: BindgenAttr| a is StructuralDispatch), 0);
    lemma_first_from_flags(pre, post, (|a: BindgenAttr| a is Final), 0);
}

/// What a foreign function must look like to be accepted, stated over its
/// raw attribute list.
pub open spec fn foreign_fn_ok_raw(f: crate::decl::ForeignItemFn) -> bool {
    let raws = crate::attrs::spec_collect_raws(f.attrs@)->Some_0;
    &&& crate::attrs::spec_find_ok(f.attrs@)
    &&& decl_lowering_ok(f.decl)
    &&& !(crate::attrs::raw_has(raws, "structural"@) && crate::attrs::raw_has(raws, "final"@))
    &&& (crate::attrs::raw_has(raws, "catch"@) ==> ftp_ok(f.decl.output))
    &&& (crate::attrs::raw_has(raws, "method"@) ==> (first_captured_ty(f.decl.inputs@)
        matches Some(t) && recv_ty_ok(t)))
    &&& (!crate::attrs::raw_has(raws, "method"@) && !crate::attrs::raw_has(
        raws,
        "static_method_of"@,
    ) && crate::attrs::raw_has(raws, "constructor"@) ==> (ctor_ret(
        f.decl.output,
        crate::attrs::raw_has(raws, "catch"@),
    ) matches Some(t) && bare_path_ty(t)))
}

/// A fully parsed bag accepts a foreign function exactly when its raw
/// attribute list does.
pub proof fn lemma_ff_ok_raw_bridge(
    f: crate::decl::ForeignItemFn,
    entries: Seq<(bool, BindgenAttr)>,
    raws: Seq<RawAttr>,
)
    requires
        crate::attrs::bag_matches_raws(entries, raws),
        crate::attrs::all_attrs_parse(raws),
        crate::attrs::spec_find_ok(f.attrs@),
        raws == crate::attrs::spec_collect_raws(f.attrs@)->Some_0,
    ensures
        foreign_fn_convert_ok(f, entries) == foreign_fn_ok_raw(f),
{
    crate::attrs::lemma_bridge_catch(entries, raws);
    crate::attrs::lemma_bridge_method(entries, raws);
    crate::attrs::lemma_bridge_static_method_of(entries, raws);
    crate::attrs::lemma_bridge_constructor(entries, raws);
    crate::attrs::lemma_bridge_structural(entries, raws);
    crate::attrs::lemma_bridge_final(entries, raws);
}

/// What one item of a foreign block must look like to be accepted.
pub open spec fn foreign_item_ok(it: crate::decl::ForeignItem) -> bool {
    match it {
        crate::decl::ForeignItem::ForeignFn(f) => foreign_fn_ok_raw(f),
        crate::decl::ForeignItem::ForeignTy(t) => crate::attrs::spec_find_ok(t.attrs@)
            && !crate::attrs::raw_has(
            crate::attrs::spec_collect_raws(t.attrs@)->Some_0,
            "variadic"@,
        ),
        crate::decl::ForeignItem::ForeignStatic(st) => st.mutability is None
            && crate::attrs::spec_find_ok(st.attrs@) && !crate::attrs::raw_has(
            crate::attrs::spec_collect_raws(st.attrs@)->Some_0,
            "variadic"@,
        ),
    }
}

/// The attribute budget of a foreign block's items.
pub open spec fn fmod_budget(items: Seq<crate::decl::ForeignItem>) -> int
    decreases items.len(),
{
    if items.len() == 0 {
        0
    } else {
        fmod_budget(items.drop_last()) + foreign_item_attrs(items.last()).len() + 2
    }
}

proof fn lemma_fmod_budget_nonneg(items: Seq<crate::decl::ForeignItem>)
    ensures
        fmod_budget(items) >= 0,
    decreases items.len(),
{
    if items.len() > 0 {
        lemma_fmod_budget_nonneg(items.drop_last());
    }
}

proof fn lemma_fmod_budget_split(items: Seq<crate::decl::ForeignItem>, i: int)
    requires
        0 <= i <= items.len(),
    ensures
        fmod_budget(items) == fmod_budget(items.subrange(0, i)) + fmod_budget(items.skip(i)),
    decreases items.len(),
{
    if i == items.len() {
        assert(items.subrange(0, i) =~= items);
        assert(items.skip(i) =~= Seq::<crate::decl::ForeignItem>::empty());
    } else {
        assert(items.drop_last().subrange(0, i) =~= items.subrange(0, i));
        assert(items.skip(i).drop_last() =~= items.drop_last().skip(i));
        assert(items.skip(i).last() == items.last());
        lemma_fmod_budget_split(items.drop_last(), i);
    }
}

/// What a foreign block must look like to be accepted: a `C` or unspecified
/// ABI, at most one of the three module forms, and every item acceptable.
pub open spec fn fmod_accept(m: crate::decl::ItemForeignMod, entries: Seq<(bool, BindgenAttr)>) -> bool {
    &&& (m.abi_name matches Some(n) ==> n@ == "C"@)
    &&& !(first_match(entries, (|a: BindgenAttr| a is Module)) is Some && first_match(
        entries,
        (|a: BindgenAttr| a is InlineJs),
    ) is Some)
    &&& !(first_match(entries, (|a: BindgenAttr| a is Module)) is Some && first_match(
        entries,
        (|a: BindgenAttr| a is RawModule),
    ) is Some)
    &&& !(first_match(entries, (|a: BindgenAttr| a is RawModule)) is Some && first_match(
        entries,
        (|a: BindgenAttr| a is InlineJs),
    ) is Some)
    &&& forall|j: int| 0 <= j < m.items@.len() ==> foreign_item_ok(#[trigger] m.items@[j])
}

/// The module a foreign block names: `module`, or `raw_module`, or an inline
/// snippet stored at the next free index, or none.
pub open spec fn chosen_module(
    entries: Seq<(bool, BindgenAttr)>,
    inline_len: usize,
) -> crate::ast::ImportModule {
    if first_match(entries, (|a: BindgenAttr| a is Module)) is Some {
        let i = first_match(entries, (|a: BindgenAttr| a is Module))->0;
        crate::ast::ImportModule::Named(entries[i].1->Module_1, entries[i].1->Module_2)
    } else if first_match(entries, (|a: BindgenAttr| a is RawModule)) is Some {
        let i = first_match(entries, (|a: BindgenAttr| a is RawModule))->0;
        crate::ast::ImportModule::RawNamed(entries[i].1->RawModule_1, entries[i].1->RawModule_2)
    } else if first_match(entries, (|a: BindgenAttr| a is InlineJs)) is Some {
        let i = first_match(entries, (|a: BindgenAttr| a is InlineJs))->0;
        crate::ast::ImportModule::Inline(inline_len, entries[i].1->InlineJs_2)
    } else {
        crate::ast::ImportModule::NoModule
    }
}

impl crate::decl::ItemForeignMod {
    /// Lowers a foreign block: its ABI must be `C` or unspecified; at most
    /// one of `module`, `raw_module` and `inline_js` may name its module;
    /// every item becomes an import under that module.  Diagnostics are
    /// accumulated across items and reported as one batch.
    #[verifier::loop_isolation(false)]
    #[verifier::rlimit(100)]
    #[verifier::spinoff_prover]
    pub fn macro_parse(
        self,
        program: &mut crate::ast::Program,
        state: &mut crate::attrs::AttributeParseState,
        opts: BindgenAttrs,
    ) -> (r: Result<(), Diagnostic>)
        requires
            forall|j: int|
                0 <= j < self.items@.len() ==> foreign_item_wf(#[trigger] self.items@[j]),
            old(state).parsed + fmod_budget(self.items@) + 1 < usize::MAX,
            old(state).checks + fmod_budget(self.items@) + 1 < usize::MAX,
        ensures
            final(state).strict == old(state).strict,
            r is Ok ==> final(state).parsed - final(state).checks == old(state).parsed - old(
                state,
            ).checks - 1,
            (first_match(opts.attrs@, (|a: BindgenAttr| a is Module)) is Some && first_match(
                opts.attrs@,
                (|a: BindgenAttr| a is InlineJs),
            ) is Some) ==> r is Err,
            (first_match(opts.attrs@, (|a: BindgenAttr| a is Module)) is Some && first_match(
                opts.attrs@,
                (|a: BindgenAttr| a is RawModule),
            ) is Some) ==> r is Err,
            (first_match(opts.attrs@, (|a: BindgenAttr| a is RawModule)) is Some && first_match(
                opts.attrs@,
                (|a: BindgenAttr| a is InlineJs),
            ) is Some) ==> r is Err,
            (self.abi_name matches Some(n) && n@ != "C"@) ==> r is Err,
            !old(state).strict ==> (r is Ok <==> fmod_accept(self, opts.attrs@)),
            r is Ok ==> (chosen_module(opts.attrs@, old(program).inline_js@.len() as usize)
                is Inline ==> (first_match(opts.attrs@, (|a: BindgenAttr| a is InlineJs))
                matches Some(i) && final(program).inline_js@ == old(program).inline_js@.push(
                opts.attrs@[i].1->InlineJs_1,
            ))),
            r is Ok ==> (!(chosen_module(opts.attrs@, old(program).inline_js@.len() as usize)
                is Inline) ==> final(program).inline_js@ == old(program).inline_js@),
            final(program).exports@ == old(program).exports@,
            final(program).structs@ == old(program).structs@,
            final(program).enums@ == old(program).enums@,
            final(program).typescript_custom_sections@ == old(
                program,
            ).typescript_custom_sections@,
            r is Ok ==> final(program).imports@.len() == old(program).imports@.len()
                + self.items@.len(),
            r is Ok ==> final(program).imports@.subrange(0, old(program).imports@.len() as int)
                == old(program).imports@,
            r is Ok ==> (forall|j: int|
                old(program).imports@.len() <= j < final(program).imports@.len()
                    ==> (#[trigger] final(program).imports@[j]).module == chosen_module(
                    opts.attrs@,
                    old(program).inline_js@.len() as usize,
                )),
    {
        let ghost bag0 = opts.attrs@;
        let mut opts = opts;
        let mut errors: Vec<Diagnostic> = Vec::new();
        match &self.abi_name {
            Some(n) => {
                if !str_eq(n.as_str(), "C") {
                    errors.push(
                        Diagnostic::span_error(
                            self.abi_span,
                            "only foreign mods with the `C` ABI are allowed",
                        ),
                    );
                }
            },
            None => {},
        }
        let m = opts.module();
        proof {
            lemma_accessor_marks_monotone(bag0, opts.attrs@, (|a: BindgenAttr| a is Module));
            lemma_first_from_flags(bag0, opts.attrs@, (|a: BindgenAttr| a is InlineJs), 0);
            lemma_first_from_flags(bag0, opts.attrs@, (|a: BindgenAttr| a is RawModule), 0);
            lemma_first_from_in_range(bag0, (|a: BindgenAttr| a is Module), 0);
            lemma_first_from_in_range(bag0, (|a: BindgenAttr| a is RawModule), 0);
            lemma_first_from_in_range(bag0, (|a: BindgenAttr| a is InlineJs), 0);
        }
        let ghost b1 = opts.attrs@;
        let module: crate::ast::ImportModule = match m {
            Some((name, span)) => {
                let ij = opts.inline_js();
                proof {
                    lemma_accessor_marks_monotone(
                        b1,
                        opts.attrs@,
                        (|a: BindgenAttr| a is InlineJs),
                    );
                    lemma_flags_monotone_trans(bag0, b1, opts.attrs@);
                    lemma_first_from_flags(bag0, b1, (|a: BindgenAttr| a is InlineJs), 0);
                    lemma_first_from_flags(bag0, opts.attrs@, (|a: BindgenAttr| a is RawModule), 0);
                }
                if ij.is_some() {
                    errors.push(
                        Diagnostic::span_error(span, "cannot specify both `module` and `inline_js`"),
                    );
                }
                let rm = opts.raw_module();
                if rm.is_some() {
                    errors.push(
                        Diagnostic::span_error(span, "cannot specify both `module` and `raw_module`"),
                    );
                }
                crate::ast::ImportModule::Named(name, span)
            },
            None => {
                let rm = opts.raw_module();
                proof {
                    lemma_accessor_marks_monotone(
                        b1,
                        opts.attrs@,
                        (|a: BindgenAttr| a is RawModule),
                    );
                    lemma_flags_monotone_trans(bag0, b1, opts.attrs@);
                    lemma_first_from_flags(bag0, b1, (|a: BindgenAttr| a is RawModule), 0);
                    lemma_first_from_flags(bag0, opts.attrs@, (|a: BindgenAttr| a is InlineJs), 0);
                }
                match rm {
                    Some((name, span)) => {
                        let ij = opts.inline_js();
                        if ij.is_some() {
                            errors.push(
                                Diagnostic::span_error(
                                    span,
                                    "cannot specify both `raw_module` and `inline_js`",
                                ),
                            );
                        }
                        crate::ast::ImportModule::RawNamed(name, span)
                    },
                    None => {
                        let ghost b2 = opts.attrs@;
                        let ij = opts.inline_js();
                        proof {
                            lemma_accessor_marks_monotone(
                                b2,
                                opts.attrs@,
                                (|a: BindgenAttr| a is InlineJs),
                            );
                            lemma_flags_monotone_trans(bag0, b2, opts.attrs@);
                            lemma_first_from_flags(bag0, b2, (|a: BindgenAttr| a is InlineJs), 0);
                        }
                        match ij {
                            Some((js, span)) => {
                                let i = program.inline_js.len();
                                program.inline_js.push(js);
                                crate::ast::ImportModule::Inline(i, span)
                            },
                            None => crate::ast::ImportModule::NoModule,
                        }
                    },
                }
            },
        };
        proof {
            assert(module == chosen_module(bag0, old(program).inline_js@.len() as usize));
        }
        let ghost items0 = self.items@;
        let mut items = self.items;
        let total = items.len();
        let ghost pre_imports = program.imports@;
        let ghost post_inline = program.inline_js@;
        let ghost conflict_or_abi = errors@.len() > 0;
        proof {
            if chosen_module(bag0, old(program).inline_js@.len() as usize) is Inline {
                assert(post_inline == old(program).inline_js@.push(
                    bag0[first_match(bag0, (|a: BindgenAttr| a is InlineJs))->0].1->InlineJs_1,
                ));
            } else {
                assert(post_inline == old(program).inline_js@);
            }
        }
        proof {
            if !old(state).strict {
                assert(conflict_or_abi == !({
                    &&& (self.abi_name matches Some(n) ==> n@ == "C"@)
                    &&& !(first_match(bag0, (|a: BindgenAttr| a is Module)) is Some && first_match(
                        bag0,
                        (|a: BindgenAttr| a is InlineJs),
                    ) is Some)
                    &&& !(first_match(bag0, (|a: BindgenAttr| a is Module)) is Some && first_match(
                        bag0,
                        (|a: BindgenAttr| a is RawModule),
                    ) is Some)
                    &&& !(first_match(bag0, (|a: BindgenAttr| a is RawModule)) is Some
                        && first_match(bag0, (|a: BindgenAttr| a is InlineJs)) is Some)
                }));
            }
        }
        let mut k: usize = 0;
        while items.len() > 0
            invariant
                k <= total,
                total == items0.len(),
                k + items@.len() == items0.len(),
                items@ =~= items0.skip(k as int),
                state.strict == old(state).strict,
                old(state).parsed <= state.parsed <= old(state).parsed + fmod_budget(
                    items0.subrange(0, k as int),
                ),
                old(state).checks <= state.checks <= old(state).checks + fmod_budget(
                    items0.subrange(0, k as int),
                ),
                program.exports@ == old(program).exports@,
                program.structs@ == old(program).structs@,
                program.enums@ == old(program).enums@,
                program.typescript_custom_sections@ == old(program).typescript_custom_sections@,
                errors@.len() == 0 ==> !conflict_or_abi,
                conflict_or_abi ==> errors@.len() > 0,
                program.inline_js@ == post_inline,
                !old(state).strict ==> (errors@.len() == 0 <==> (!conflict_or_abi && (forall|
                    j: int,
                |
                    0 <= j < k ==> foreign_item_ok(#[trigger] items0[j])))),
                errors@.len() == 0 ==> {
                    &&& state.parsed - state.checks == old(state).parsed - old(state).checks
                    &&& program.imports@.len() == pre_imports.len() + k
                    &&& program.imports@.subrange(0, pre_imports.len() as int) == pre_imports
                    &&& (forall|j: int|
                        pre_imports.len() <= j < program.imports@.len() ==> (
                        #[trigger] program.imports@[j]).module == module)
                },
            decreases items@.len(),
        {
            proof {
                assert(items0.skip(k as int)[0] == items0[k as int]);
                assert(items0.skip(k as int).drop_first() =~= items0.skip(k as int + 1));
                assert(items0.subrange(0, k as int + 1).drop_last() =~= items0.subrange(
                    0,
                    k as int,
                ));
                assert(items0.subrange(0, k as int + 1).last() == items0[k as int]);
                lemma_fmod_budget_nonneg(items0.subrange(0, k as int));
                lemma_fmod_budget_nonneg(items0.skip(k as int + 1));
                lemma_fmod_budget_split(items0, k as int);
                lemma_fmod_budget_split(items0, k as int + 1);
            }
            let item = items.remove(0);
            let ghost cur_imports = program.imports@;
            match item.macro_parse(program, state, module.clone()) {
                Ok(u) => {
                    proof {
                        if errors@.len() == 0 {
                            assert(program.imports@.subrange(0, cur_imports.len() as int)
                                == cur_imports);
                            assert(program.imports@.subrange(0, pre_imports.len() as int)
                                =~= cur_imports.subrange(0, pre_imports.len() as int));
                            assert forall|j: int|
                                pre_imports.len() <= j < program.imports@.len() implies (
                            #[trigger] program.imports@[j]).module == module by {
                                if j < cur_imports.len() {
                                    assert(program.imports@[j] == cur_imports[j]);
                                } else {
                                    assert(program.imports@[j] == program.imports@.last());
                                }
                            }
                        }
                    }
                },
                Err(d) => {
                    errors.push(d);
                },
            }
            k = k + 1;
        }
        proof {
            assert(items0.subrange(0, k as int) =~= items0);
        }
        match Diagnostic::from_vec(errors) {
            Ok(u) => {},
            Err(d) => {
                return Err(d);
            },
        }
        match opts.check_used(state) {
            Ok(u) => {},
            Err(d) => {
                return Err(d);
            },
        }
        Ok(())
    }
}

/// The index of the first `no_mangle` attribute.
pub open spec fn first_no_mangle(attrs: Seq<Attribute>, i: int) -> Option<int>
    decreases attrs.len() - i,
    when 0 <= i <= attrs.len()
{
    if i >= attrs.len() {
        None
    } else if attrs[i].path@.len() == 1 && attrs[i].path@[0]@ == "no_mangle"@ {
        Some(i)
    } else {
        first_no_mangle(attrs, i + 1)
    }
}

/// An attribute list with its first `no_mangle` attribute removed.
pub open spec fn strip_no_mangle(attrs: Seq<Attribute>) -> Seq<Attribute> {
    match first_no_mangle(attrs, 0) {
        Some(i) => attrs.subrange(0, i) + attrs.skip(i + 1),
        None => attrs,
    }
}

/// The entries of an optional bag.
pub open spec fn opt_entries(opts: Option<BindgenAttrs>) -> Seq<(bool, BindgenAttr)> {
    match opts {
        Option::Some(b) => b.attrs@,
        Option::None => Seq::empty(),
    }
}

/// What a decorated free function must look like to be accepted, including
/// the start-function restriction.
pub open spec fn fn_item_accept(f: crate::decl::ItemFn, entries: Seq<(bool, BindgenAttr)>) -> bool {
    &&& itemfn_convert_ok(f, entries)
    &&& (first_match(entries, (|a: BindgenAttr| a is Start)) is Some ==> f.decl.generics_count
        == 0 && f.decl.inputs@.len() == 0)
}

/// What a decorated constant must look like to be accepted, over its own
/// attribute list.
pub open spec fn const_accept_raw(c: crate::decl::ItemConst) -> bool {
    &&& crate::attrs::spec_find_ok(c.attrs@)
    &&& crate::attrs::raw_has(
        crate::attrs::spec_collect_raws(c.attrs@)->Some_0,
        "typescript_custom_section"@,
    )
    &&& c.str_value is Some
}

/// What a foreign block must look like to be accepted, over its own
/// attribute list.
pub open spec fn fmod_accept_raw(m: crate::decl::ItemForeignMod) -> bool {
    let raws = crate::attrs::spec_collect_raws(m.attrs@)->Some_0;
    &&& crate::attrs::spec_find_ok(m.attrs@)
    &&& (m.abi_name matches Some(n) ==> n@ == "C"@)
    &&& !(crate::attrs::raw_has(raws, "module"@) && crate::attrs::raw_has(raws, "inline_js"@))
    &&& !(crate::attrs::raw_has(raws, "module"@) && crate::attrs::raw_has(raws, "raw_module"@))
    &&& !(crate::attrs::raw_has(raws, "raw_module"@) && crate::attrs::raw_has(
        raws,
        "inline_js"@,
    ))
    &&& forall|j: int| 0 <= j < m.items@.len() ==> foreign_item_ok(#[trigger] m.items@[j])
}

/// The well-formedness item lowering expects of its input, mirroring what
/// the language itself guarantees of real declarations.
pub open spec fn item_wf(it: crate::decl::Item) -> bool {
    match it {
        crate::decl::Item::Fn(f) => args_wf(f.decl.inputs@, false),
        crate::decl::Item::ForeignMod(fm) => forall|j: int|
            0 <= j < fm.items@.len() ==> foreign_item_wf(#[trigger] fm.items@[j]),
        crate::decl::Item::Enum(e) => e.variants@.len() <= u32::MAX as int && (enum_decl_ok(e)
            ==> distinct_u32(enum_values_u32(e.variants@))) && (enum_decl_ok(e) ==> seq_min_u32(
            enum_values_u32(e.variants@),
        ) + e.variants@.len() <= u32::MAX as int),
        _ => true,
    }
}

/// The attribute budget of one item.
pub open spec fn item_budget(it: crate::decl::Item) -> int {
    match it {
        crate::decl::Item::Fn(f) => 1int,
        crate::decl::Item::Struct(s) => fields_budget(s.fields@) + 2,
        crate::decl::Item::Impl(i) => 1int,
        crate::decl::Item::ForeignMod(fm) => fm.attrs@.len() as int + 2 + fmod_budget(fm.items@),
        crate::decl::Item::Enum(e) => 1int,
        crate::decl::Item::Const(c) => c.attrs@.len() as int + 2,
        crate::decl::Item::Other(sp) => 0int,
    }
}

impl crate::decl::Item {
    /// Lowers one decorated item into the program: the entry point of the
    /// collector.  Each item kind dispatches to its own lowering; a bag
    /// handed in by the caller is audited along the way.
    #[verifier::rlimit(100)]
    #[verifier::spinoff_prover]
    pub fn macro_parse(
        self,
        program: &mut crate::ast::Program,
        state: &mut crate::attrs::AttributeParseState,
        opts: Option<BindgenAttrs>,
    ) -> (r: Result<(), Diagnostic>)
        requires
            item_wf(self),
            old(state).parsed + item_budget(self) + 2 < usize::MAX,
            old(state).checks + item_budget(self) + 2 < usize::MAX,
        ensures
            final(state).strict == old(state).strict,
            r is Ok ==> final(state).parsed - final(state).checks == old(state).parsed - old(
                state,
            ).checks - (if opts is Some {
                1int
            } else {
                0int
            }),
            self is Other ==> r is Err,
            self is Other ==> *final(program) == *old(program),
            self matches crate::decl::Item::Fn(f) ==> ((first_match(
                opt_entries(opts),
                (|a: BindgenAttr| a is Start),
            ) is Some && (f.decl.generics_count > 0 || f.decl.inputs@.len() > 0)) ==> r is Err),
            !old(state).strict ==> (self matches crate::decl::Item::Fn(f) ==> (r is Ok
                <==> fn_item_accept(f, opt_entries(opts)))),
            !old(state).strict ==> (self matches crate::decl::Item::Struct(sd) ==> (r is Ok
                <==> struct_convert_ok(sd))),
            !old(state).strict ==> (self matches crate::decl::Item::Enum(e) ==> (r is Ok
                <==> enum_decl_ok(e))),
            !old(state).strict ==> (self matches crate::decl::Item::Impl(ii) ==> (r is Ok
                <==> impl_accept(ii))),
            !old(state).strict ==> (self matches crate::decl::Item::Const(c) ==> (r is Ok <==> (
            match opts {
                Option::Some(b) => first_match(
                    b.attrs@,
                    (|a: BindgenAttr| a is TypescriptCustomSection),
                ) is Some && c.str_value is Some,
                Option::None => const_accept_raw(c),
            }))),
            !old(state).strict ==> (self matches crate::decl::Item::ForeignMod(fm) ==> (r is Ok
                <==> (match opts {
                Option::Some(b) => fmod_accept(fm, b.attrs@),
                Option::None => fmod_accept_raw(fm),
            }))),
            r is Ok && self is Struct ==> final(program).structs@.len() == old(
                program,
            ).structs@.len() + 1,
            r is Ok && self is Enum ==> final(program).enums@.len() == old(
                program,
            ).enums@.len() + 1,
            r is Ok && self is Const ==> final(program).typescript_custom_sections@.len() == old(
                program,
            ).typescript_custom_sections@.len() + 1,
            r is Ok && self is Impl ==> *final(program) == *old(program),
            r is Ok ==> (self matches crate::decl::Item::ForeignMod(fm) ==> final(program).imports@.len() == old(program).imports@.len() + fm.items@.len()),
            r is Ok ==> (self matches crate::decl::Item::Fn(f) ==> {
                let entries = opt_entries(opts);
                &&& final(program).exports@.len() == old(program).exports@.len() + 1
                &&& final(program).exports@.subrange(0, old(program).exports@.len() as int)
                    == old(program).exports@
                &&& {
                    let ex = final(program).exports@.last();
                    &&& ex.rust_name == f.ident
                    &&& ex.rust_class is None
                    &&& ex.js_class is None
                    &&& ex.method_self is None
                    &&& ex.start == (first_match(entries, (|a: BindgenAttr| a is Start)) is Some)
                    &&& ex.method_kind == crate::ast::MethodKind::Operation(
                        crate::ast::Operation {
                            is_static: true,
                            kind: spec_operation_kind(entries),
                        },
                    )
                    &&& ex.comments@ == spec_doc_comments(strip_no_mangle(f.attrs@))
                    &&& args_lowered(f.decl.inputs@, Option::None, ex.function.arguments@)
                    &&& ret_lowered(f.decl.output, Option::None, ex.function.ret)
                    &&& lowered_name_ok(entries, f.ident@, f.ident_span, ex.function)
                }
            }),
    {
        match self {
            crate::decl::Item::Fn(f) => {
                let mut f = f;
                let mut idx: usize = 0;
                let mut found = false;
                while idx < f.attrs.len() && !found
                    invariant
                        0 <= idx <= f.attrs@.len(),
                        found ==> idx < f.attrs@.len(),
                        !found ==> first_no_mangle(f.attrs@, 0) == first_no_mangle(
                            f.attrs@,
                            idx as int,
                        ),
                        found ==> first_no_mangle(f.attrs@, 0) == Some(idx as int),
                    decreases f.attrs@.len() - idx + (if found {
                        0int
                    } else {
                        1int
                    }),
                {
                    let a = &f.attrs[idx];
                    if a.path.len() == 1 && str_eq(a.path[0].as_str(), "no_mangle") {
                        found = true;
                    } else {
                        idx = idx + 1;
                    }
                }
                let ghost attrs0 = f.attrs@;
                if found {
                    let removed = f.attrs.remove(idx);
                    proof {
                        assert(f.attrs@ =~= attrs0.subrange(0, idx as int) + attrs0.skip(
                            idx as int + 1,
                        ));
                        assert(f.attrs@ =~= strip_no_mangle(attrs0));
                    }
                } else {
                    proof {
                        assert(f.attrs@ =~= strip_no_mangle(attrs0));
                    }
                }
                let comments = extract_doc_comments(&f.attrs);
                let mut o = match opts {
                    Some(b) => b,
                    None => BindgenAttrs::new(state),
                };
                let ghost entries = o.attrs@;
                let ghost c0 = o.attrs@;
                let st1 = o.start();
                proof {
                    lemma_accessor_marks_monotone(c0, o.attrs@, (|a: BindgenAttr| a is Start));
                }
                if st1.is_some() {
                    if f.decl.generics_count > 0 {
                        return Err(
                            Diagnostic::span_error(
                                f.decl.generics_span,
                                "the start function cannot have generics",
                            ),
                        );
                    }
                    if f.decl.inputs.len() > 0 {
                        return Err(
                            Diagnostic::span_error(
                                f.decl.span,
                                "the start function cannot have arguments",
                            ),
                        );
                    }
                }
                let ghost c1 = o.attrs@;
                let kind = operation_kind(&mut o);
                proof {
                    lemma_flags_monotone_trans(entries, c1, o.attrs@);
                    lemma_spec_operation_kind_stable(entries, c1);
                    lemma_first_from_flags(entries, o.attrs@, (|a: BindgenAttr| a is Start), 0);
                }
                let method_kind = crate::ast::MethodKind::Operation(
                    crate::ast::Operation { is_static: true, kind },
                );
                let rust_name = f.ident.clone();
                let ghost c2 = o.attrs@;
                let st2 = o.start();
                proof {
                    lemma_accessor_marks_monotone(c2, o.attrs@, (|a: BindgenAttr| a is Start));
                    lemma_flags_monotone_trans(entries, c2, o.attrs@);
                }
                let start = st2.is_some();
                let ghost c3 = o.attrs@;
                proof {
                    lemma_first_from_flags(entries, c3, (|a: BindgenAttr| a is Variadic), 0);
                }
                let function = match f.convert(state, o) {
                    Ok(fun) => fun,
                    Err(d) => {
                        return Err(d);
                    },
                };
                proof {
                    assert(lowered_name_ok(c3, f.ident@, f.ident_span, function));
                    lemma_first_from_flags(entries, c3, (|a: BindgenAttr| a is JsName), 0);
                    lemma_first_from_in_range(entries, (|a: BindgenAttr| a is JsName), 0);
                    assert(lowered_name_ok(entries, f.ident@, f.ident_span, function));
                }
                let ghost pre_exports = program.exports@;
                program.exports.push(
                    crate::ast::Export {
                        comments,
                        function,
                        js_class: None,
                        method_kind,
                        method_self: None,
                        rust_class: None,
                        rust_name,
                        start,
                    },
                );
                proof {
                    assert(program.exports@.subrange(0, pre_exports.len() as int)
                        =~= pre_exports);
                }
                Ok(())
            },
            crate::decl::Item::Struct(s) => {
                proof {
                    lemma_fields_budget_nonneg(s.fields@);
                }
                let o = match opts {
                    Some(b) => b,
                    None => BindgenAttrs::new(state),
                };
                let st = match s.convert(state, o) {
                    Ok(st) => st,
                    Err(d) => {
                        return Err(d);
                    },
                };
                program.structs.push(st);
                Ok(())
            },
            crate::decl::Item::Impl(i) => {
                let mut i = i;
                let o = match opts {
                    Some(b) => b,
                    None => BindgenAttrs::new(state),
                };
                match i.macro_parse(state, o) {
                    Ok(u) => Ok(()),
                    Err(d) => Err(d),
                }
            },
            crate::decl::Item::ForeignMod(fm) => {
                let mut fm = fm;
                let ghost raws = crate::attrs::spec_collect_raws(fm.attrs@)->Some_0;
                let from_find = !opts.is_some();
                let o = match opts {
                    Some(b) => b,
                    None => {
                        proof {
                            lemma_fmod_budget_nonneg(fm.items@);
                        }
                        match BindgenAttrs::find(state, &mut fm.attrs) {
                            Ok(b) => b,
                            Err(d) => {
                                return Err(d);
                            },
                        }
                    },
                };
                proof {
                    lemma_fmod_budget_nonneg(fm.items@);
                    if from_find {
                        crate::attrs::lemma_bridge_module(o.attrs@, raws);
                        crate::attrs::lemma_bridge_raw_module(o.attrs@, raws);
                        crate::attrs::lemma_bridge_inline_js(o.attrs@, raws);
                    }
                }
                fm.macro_parse(program, state, o)
            },
            crate::decl::Item::Enum(e) => {
                match opts {
                    Some(b) => {
                        match b.check_used(state) {
                            Ok(u) => {},
                            Err(d) => {
                                return Err(d);
                            },
                        }
                    },
                    None => {},
                }
                e.macro_parse(program)
            },
            crate::decl::Item::Const(c) => {
                let mut c = c;
                let ghost raws = crate::attrs::spec_collect_raws(c.attrs@)->Some_0;
                let from_find = !opts.is_some();
                let o = match opts {
                    Some(b) => b,
                    None => {
                        match BindgenAttrs::find(state, &mut c.attrs) {
                            Ok(b) => b,
                            Err(d) => {
                                return Err(d);
                            },
                        }
                    },
                };
                proof {
                    if from_find {
                        crate::attrs::lemma_bridge_typescript_custom_section(o.attrs@, raws);
                    }
                }
                c.macro_parse(program, state, o)
            },
            crate::decl::Item::Other(sp) => Err(
                Diagnostic::span_error(
                    sp,
                    "#[wasm_bindgen] can only be applied to a function, struct, enum, impl, or extern block",
                ),
            ),
        }
    }
}

} // verus!
