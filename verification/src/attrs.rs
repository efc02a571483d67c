//! The attribute vocabulary and the attribute bag.
//!
//! A `BindgenAttrs` value is an ordered bag of `(consumed, attribute)`
//! pairs.  Query accessors return the first attribute of a given kind and
//! mark it consumed; `check_used` audits the bag and, in strict mode,
//! reports every attribute still unconsumed.  A process-wide counter pair
//! (`parsed`, `checks`), threaded explicitly as `AttributeParseState`,
//! checks that every bag that is created is audited exactly once.

use crate::ast::AttrBody;
use crate::ast::AttrList;
use crate::ast::AttrValue;
use crate::ast::Attribute;
use crate::ast::Diagnostic;
use crate::ast::Path;
use crate::ast::PathArguments;
use crate::ast::PathSegment;
use crate::ast::RawAttr;
use crate::ast::Span;
use crate::text::str_eq;
use vstd::pervasive::VecAdditionalExecFns;
use vstd::prelude::*;

verus! {

/// The audit counters and the strictness switch of one compilation unit.
#[derive(Clone, Copy, Debug, PartialEq, Eq, Structural)]
pub struct AttributeParseState {
    /// How many attribute bags were created.
    pub parsed: usize,
    /// How many attribute bags were audited.
    pub checks: usize,
    /// Whether an unconsumed attribute is a diagnostic.
    pub strict: bool,
}

/// Resets the audit counters at the start of a compilation unit.
pub fn reset_attrs_used(state: &mut AttributeParseState)
    ensures
        final(state).parsed == 0,
        final(state).checks == 0,
        final(state).strict == old(state).strict,
{
    state.parsed = 0;
    state.checks = 0;
}

/// Whether every attribute bag that was created has been audited: what must
/// hold at the end of every successful compilation.
pub fn assert_all_attrs_checked(state: &AttributeParseState) -> (r: bool)
    ensures
        r == (state.parsed == state.checks),
{
    state.parsed == state.checks
}

/// The audit invariant of a whole compilation: the counters start out equal
/// after a reset, every successful lowering step keeps their difference (it
/// audits every bag it creates or receives), and therefore every bag that
/// was parsed has been checked when the compilation ends.
pub proof fn lemma_audit_balance(pre: AttributeParseState, post: AttributeParseState)
    requires
        pre.parsed == pre.checks,
        post.parsed - post.checks == pre.parsed - pre.checks,
    ensures
        post.parsed == post.checks,
{
}

/// One attribute of the fixed vocabulary, with its keyword position and its
/// payload.
#[derive(Debug, PartialEq, Eq)]
pub enum BindgenAttr {
    Catch(Span),
    Constructor(Span),
    Method(Span),
    StaticMethodOf(Span, String),
    JsNamespace(Span, String),
    Module(Span, String, Span),
    RawModule(Span, String, Span),
    InlineJs(Span, String, Span),
    Getter(Span, Option<String>),
    Setter(Span, Option<String>),
    IndexingGetter(Span),
    IndexingSetter(Span),
    IndexingDeleter(Span),
    StructuralDispatch(Span),
    Final(Span),
    Readonly(Span),
    JsName(Span, String, Span),
    JsClass(Span, String, Span),
    IsTypeOf(Span, String),
    Extends(Span, Path),
    VendorPrefix(Span, String),
    Variadic(Span),
    TypescriptCustomSection(Span),
    Start(Span),
    Skip(Span),
}

/// The keyword position of an attribute.
pub open spec fn spec_attr_span(a: BindgenAttr) -> Span {
    match a {
        BindgenAttr::Catch(s) => s,
        BindgenAttr::Constructor(s) => s,
        BindgenAttr::Method(s) => s,
        BindgenAttr::StaticMethodOf(s, ..) => s,
        BindgenAttr::JsNamespace(s, ..) => s,
        BindgenAttr::Module(s, ..) => s,
        BindgenAttr::RawModule(s, ..) => s,
        BindgenAttr::InlineJs(s, ..) => s,
        BindgenAttr::Getter(s, ..) => s,
        BindgenAttr::Setter(s, ..) => s,
        BindgenAttr::IndexingGetter(s) => s,
        BindgenAttr::IndexingSetter(s) => s,
        BindgenAttr::IndexingDeleter(s) => s,
        BindgenAttr::StructuralDispatch(s) => s,
        BindgenAttr::Final(s) => s,
        BindgenAttr::Readonly(s) => s,
        BindgenAttr::JsName(s, ..) => s,
        BindgenAttr::JsClass(s, ..) => s,
        BindgenAttr::IsTypeOf(s, ..) => s,
        BindgenAttr::Extends(s, ..) => s,
        BindgenAttr::VendorPrefix(s, ..) => s,
        BindgenAttr::Variadic(s) => s,
        BindgenAttr::TypescriptCustomSection(s) => s,
        BindgenAttr::Start(s) => s,
        BindgenAttr::Skip(s) => s,
    }
}

impl BindgenAttr {
    /// The keyword position of this attribute.
    pub fn span(&self) -> (r: Span)
        ensures
            r == spec_attr_span(*self),
    {
        match self {
            BindgenAttr::Catch(s) => *s,
            BindgenAttr::Constructor(s) => *s,
            BindgenAttr::Method(s) => *s,
            BindgenAttr::StaticMethodOf(s, ..) => *s,
            BindgenAttr::JsNamespace(s, ..) => *s,
            BindgenAttr::Module(s, ..) => *s,
            BindgenAttr::RawModule(s, ..) => *s,
            BindgenAttr::InlineJs(s, ..) => *s,
            BindgenAttr::Getter(s, ..) => *s,
            BindgenAttr::Setter(s, ..) => *s,
            BindgenAttr::IndexingGetter(s) => *s,
            BindgenAttr::IndexingSetter(s) => *s,
            BindgenAttr::IndexingDeleter(s) => *s,
            BindgenAttr::StructuralDispatch(s) => *s,
            BindgenAttr::Final(s) => *s,
            BindgenAttr::Readonly(s) => *s,
            BindgenAttr::JsName(s, ..) => *s,
            BindgenAttr::JsClass(s, ..) => *s,
            BindgenAttr::IsTypeOf(s, ..) => *s,
            BindgenAttr::Extends(s, ..) => *s,
            BindgenAttr::VendorPrefix(s, ..) => *s,
            BindgenAttr::Variadic(s) => *s,
            BindgenAttr::TypescriptCustomSection(s) => *s,
            BindgenAttr::Start(s) => *s,
            BindgenAttr::Skip(s) => *s,
        }
    }
}

/// Whether parsing one raw keyword succeeds: the keyword is in the
/// vocabulary and its payload has the declared shape.
pub open spec fn attr_parse_ok(raw: RawAttr) -> bool {
    if raw.keyword@ == "catch"@ {
        raw.value is NoValue
    } else if raw.keyword@ == "constructor"@ {
        raw.value is NoValue
    } else if raw.keyword@ == "method"@ {
        raw.value is NoValue
    } else if raw.keyword@ == "indexing_getter"@ {
        raw.value is NoValue
    } else if raw.keyword@ == "indexing_setter"@ {
        raw.value is NoValue
    } else if raw.keyword@ == "indexing_deleter"@ {
        raw.value is NoValue
    } else if raw.keyword@ == "structural"@ {
        raw.value is NoValue
    } else if raw.keyword@ == "final"@ {
        raw.value is NoValue
    } else if raw.keyword@ == "readonly"@ {
        raw.value is NoValue
    } else if raw.keyword@ == "variadic"@ {
        raw.value is NoValue
    } else if raw.keyword@ == "typescript_custom_section"@ {
        raw.value is NoValue
    } else if raw.keyword@ == "start"@ {
        raw.value is NoValue
    } else if raw.keyword@ == "skip"@ {
        raw.value is NoValue
    } else if raw.keyword@ == "static_method_of"@ {
        raw.value is Ident
    } else if raw.keyword@ == "js_namespace"@ {
        raw.value is Ident
    } else if raw.keyword@ == "vendor_prefix"@ {
        raw.value is Ident
    } else if raw.keyword@ == "getter"@ {
        raw.value is NoValue || raw.value is Ident
    } else if raw.keyword@ == "setter"@ {
        raw.value is NoValue || raw.value is Ident
    } else if raw.keyword@ == "module"@ {
        raw.value is Str || raw.value is Ident
    } else if raw.keyword@ == "raw_module"@ {
        raw.value is Str || raw.value is Ident
    } else if raw.keyword@ == "inline_js"@ {
        raw.value is Str || raw.value is Ident
    } else if raw.keyword@ == "js_name"@ {
        raw.value is Str || raw.value is Ident
    } else if raw.keyword@ == "js_class"@ {
        raw.value is Str || raw.value is Ident
    } else if raw.keyword@ == "is_type_of"@ {
        raw.value is Expr || raw.value is Ident || raw.value is Str
    } else if raw.keyword@ == "extends"@ {
        raw.value is PathValue || raw.value is Ident
    } else {
        false
    }
}

/// The text of a string-or-identifier payload.
pub open spec fn sv_text(v: AttrValue) -> Seq<char> {
    match v {
        AttrValue::Ident(s, sp) => s@,
        AttrValue::Str(s, sp) => s@,
        AttrValue::Expr(s, sp) => s@,
        AttrValue::NoValue => Seq::empty(),
        AttrValue::PathValue(p, sp) => Seq::empty(),
    }
}

/// The position of a string-or-identifier payload.
pub open spec fn sv_span(v: AttrValue) -> Span {
    match v {
        AttrValue::Ident(s, sp) => sp,
        AttrValue::Str(s, sp) => sp,
        AttrValue::Expr(s, sp) => sp,
        AttrValue::NoValue => Span { lo: 0, hi: 0 },
        AttrValue::PathValue(p, sp) => sp,
    }
}

/// What parsing one raw keyword yields, as a relation between the raw input
/// and the vocabulary attribute built from it.
pub open spec fn parsed_attr_matches(raw: RawAttr, a: BindgenAttr) -> bool {
    if raw.keyword@ == "catch"@ {
        a == BindgenAttr::Catch(raw.span)
    } else if raw.keyword@ == "constructor"@ {
        a == BindgenAttr::Constructor(raw.span)
    } else if raw.keyword@ == "method"@ {
        a == BindgenAttr::Method(raw.span)
    } else if raw.keyword@ == "indexing_getter"@ {
        a == BindgenAttr::IndexingGetter(raw.span)
    } else if raw.keyword@ == "indexing_setter"@ {
        a == BindgenAttr::IndexingSetter(raw.span)
    } else if raw.keyword@ == "indexing_deleter"@ {
        a == BindgenAttr::IndexingDeleter(raw.span)
    } else if raw.keyword@ == "structural"@ {
        a == BindgenAttr::StructuralDispatch(raw.span)
    } else if raw.keyword@ == "final"@ {
        a == BindgenAttr::Final(raw.span)
    } else if raw.keyword@ == "readonly"@ {
        a == BindgenAttr::Readonly(raw.span)
    } else if raw.keyword@ == "variadic"@ {
        a == BindgenAttr::Variadic(raw.span)
    } else if raw.keyword@ == "typescript_custom_section"@ {
        a == BindgenAttr::TypescriptCustomSection(raw.span)
    } else if raw.keyword@ == "start"@ {
        a == BindgenAttr::Start(raw.span)
    } else if raw.keyword@ == "skip"@ {
        a == BindgenAttr::Skip(raw.span)
    } else if raw.keyword@ == "static_method_of"@ {
        a matches BindgenAttr::StaticMethodOf(sp, name) && sp == raw.span && name@ == sv_text(
            raw.value,
        )
    } else if raw.keyword@ == "js_namespace"@ {
        a matches BindgenAttr::JsNamespace(sp, name) && sp == raw.span && name@ == sv_text(
            raw.value,
        )
    } else if raw.keyword@ == "vendor_prefix"@ {
        a matches BindgenAttr::VendorPrefix(sp, name) && sp == raw.span && name@ == sv_text(
            raw.value,
        )
    } else if raw.keyword@ == "getter"@ {
        (raw.value is NoValue && a == BindgenAttr::Getter(raw.span, Option::None)) || (
        raw.value is Ident && (a matches BindgenAttr::Getter(sp, Option::Some(name)) && sp
            == raw.span && name@ == sv_text(raw.value)))
    } else if raw.keyword@ == "setter"@ {
        (raw.value is NoValue && a == BindgenAttr::Setter(raw.span, Option::None)) || (
        raw.value is Ident && (a matches BindgenAttr::Setter(sp, Option::Some(name)) && sp
            == raw.span && name@ == sv_text(raw.value)))
    } else if raw.keyword@ == "module"@ {
        a matches BindgenAttr::Module(sp, s, vs) && sp == raw.span && s@ == sv_text(raw.value)
            && vs == sv_span(raw.value)
    } else if raw.keyword@ == "raw_module"@ {
        a matches BindgenAttr::RawModule(sp, s, vs) && sp == raw.span && s@ == sv_text(raw.value)
            && vs == sv_span(raw.value)
    } else if raw.keyword@ == "inline_js"@ {
        a matches BindgenAttr::InlineJs(sp, s, vs) && sp == raw.span && s@ == sv_text(raw.value)
            && vs == sv_span(raw.value)
    } else if raw.keyword@ == "js_name"@ {
        a matches BindgenAttr::JsName(sp, s, vs) && sp == raw.span && s@ == sv_text(raw.value)
            && vs == sv_span(raw.value)
    } else if raw.keyword@ == "js_class"@ {
        a matches BindgenAttr::JsClass(sp, s, vs) && sp == raw.span && s@ == sv_text(raw.value)
            && vs == sv_span(raw.value)
    } else if raw.keyword@ == "is_type_of"@ {
        a matches BindgenAttr::IsTypeOf(sp, s) && sp == raw.span && s@ == sv_text(raw.value)
    } else if raw.keyword@ == "extends"@ {
        (raw.value matches AttrValue::PathValue(p, vs) && (a matches BindgenAttr::Extends(
            sp,
            q,
        ) && sp == raw.span && crate::ast::path_eq(q, p))) || (raw.value matches AttrValue::Ident(
            s,
            vs,
        ) && (a matches BindgenAttr::Extends(sp, q) && sp == raw.span && q.leading_colon == false
            && q.segments@.len() == 1 && q.segments@[0].ident@ == s@ && q.segments@[0].arguments is NoArgs))
    } else {
        false
    }
}

/// Parses one raw keyword of an attribute list into the vocabulary,
/// checking the keyword and the shape of its payload.
pub fn parse_attr(raw: RawAttr) -> (r: Result<BindgenAttr, Diagnostic>)
    ensures
        r is Ok <==> attr_parse_ok(raw),
        r is Ok ==> parsed_attr_matches(raw, r->Ok_0),
{
    let RawAttr { keyword, span, value } = raw;
    if str_eq(keyword.as_str(), "catch") {
        match value {
            AttrValue::NoValue => Ok(BindgenAttr::Catch(span)),
            _ => Err(Diagnostic::span_error(span, "malformed #[wasm_bindgen] attribute")),
        }
    } else if str_eq(keyword.as_str(), "constructor") {
        match value {
            AttrValue::NoValue => Ok(BindgenAttr::Constructor(span)),
            _ => Err(Diagnostic::span_error(span, "malformed #[wasm_bindgen] attribute")),
        }
    } else if str_eq(keyword.as_str(), "method") {
        match value {
            AttrValue::NoValue => Ok(BindgenAttr::Method(span)),
            _ => Err(Diagnostic::span_error(span, "malformed #[wasm_bindgen] attribute")),
        }
    } else if str_eq(keyword.as_str(), "indexing_getter") {
        match value {
            AttrValue::NoValue => Ok(BindgenAttr::IndexingGetter(span)),
            _ => Err(Diagnostic::span_error(span, "malformed #[wasm_bindgen] attribute")),
        }
    } else if str_eq(keyword.as_str(), "indexing_setter") {
        match value {
            AttrValue::NoValue => Ok(BindgenAttr::IndexingSetter(span)),
            _ => Err(Diagnostic::span_error(span, "malformed #[wasm_bindgen] attribute")),
        }
    } else if str_eq(keyword.as_str(), "indexing_deleter") {
        match value {
            AttrValue::NoValue => Ok(BindgenAttr::IndexingDeleter(span)),
            _ => Err(Diagnostic::span_error(span, "malformed #[wasm_bindgen] attribute")),
        }
    } else if str_eq(keyword.as_str(), "structural") {
        match value {
            AttrValue::NoValue => Ok(BindgenAttr::StructuralDispatch(span)),
            _ => Err(Diagnostic::span_error(span, "malformed #[wasm_bindgen] attribute")),
        }
    } else if str_eq(keyword.as_str(), "final") {
        match value {
            AttrValue::NoValue => Ok(BindgenAttr::Final(span)),
            _ => Err(Diagnostic::span_error(span, "malformed #[wasm_bindgen] attribute")),
        }
    } else if str_eq(keyword.as_str(), "readonly") {
        match value {
            AttrValue::NoValue => Ok(BindgenAttr::Readonly(span)),
            _ => Err(Diagnostic::span_error(span, "malformed #[wasm_bindgen] attribute")),
        }
    } else if str_eq(keyword.as_str(), "variadic") {
        match value {
            AttrValue::NoValue => Ok(BindgenAttr::Variadic(span)),
            _ => Err(Diagnostic::span_error(span, "malformed #[wasm_bindgen] attribute")),
        }
    } else if str_eq(keyword.as_str(), "typescript_custom_section") {
        match value {
            AttrValue::NoValue => Ok(BindgenAttr::TypescriptCustomSection(span)),
            _ => Err(Diagnostic::span_error(span, "malformed #[wasm_bindgen] attribute")),
        }
    } else if str_eq(keyword.as_str(), "start") {
        match value {
            AttrValue::NoValue => Ok(BindgenAttr::Start(span)),
            _ => Err(Diagnostic::span_error(span, "malformed #[wasm_bindgen] attribute")),
        }
    } else if str_eq(keyword.as_str(), "skip") {
        match value {
            AttrValue::NoValue => Ok(BindgenAttr::Skip(span)),
            _ => Err(Diagnostic::span_error(span, "malformed #[wasm_bindgen] attribute")),
        }
    } else if str_eq(keyword.as_str(), "static_method_of") {
        match value {
            AttrValue::Ident(s, vs) => Ok(BindgenAttr::StaticMethodOf(span, s)),
            _ => Err(Diagnostic::span_error(span, "expected an identifier")),
        }
    } else if str_eq(keyword.as_str(), "js_namespace") {
        match value {
            AttrValue::Ident(s, vs) => Ok(BindgenAttr::JsNamespace(span, s)),
            _ => Err(Diagnostic::span_error(span, "expected an identifier")),
        }
    } else if str_eq(keyword.as_str(), "vendor_prefix") {
        match value {
            AttrValue::Ident(s, vs) => Ok(BindgenAttr::VendorPrefix(span, s)),
            _ => Err(Diagnostic::span_error(span, "expected an identifier")),
        }
    } else if str_eq(keyword.as_str(), "getter") {
        match value {
            AttrValue::NoValue => Ok(BindgenAttr::Getter(span, None)),
            AttrValue::Ident(s, vs) => Ok(BindgenAttr::Getter(span, Some(s))),
            _ => Err(Diagnostic::span_error(span, "expected an identifier")),
        }
    } else if str_eq(keyword.as_str(), "setter") {
        match value {
            AttrValue::NoValue => Ok(BindgenAttr::Setter(span, None)),
            AttrValue::Ident(s, vs) => Ok(BindgenAttr::Setter(span, Some(s))),
            _ => Err(Diagnostic::span_error(span, "expected an identifier")),
        }
    } else if str_eq(keyword.as_str(), "module") {
        match value {
            AttrValue::Str(s, vs) => Ok(BindgenAttr::Module(span, s, vs)),
            AttrValue::Ident(s, vs) => Ok(BindgenAttr::Module(span, s, vs)),
            _ => Err(Diagnostic::span_error(span, "expected an identifier")),
        }
    } else if str_eq(keyword.as_str(), "raw_module") {
        match value {
            AttrValue::Str(s, vs) => Ok(BindgenAttr::RawModule(span, s, vs)),
            AttrValue::Ident(s, vs) => Ok(BindgenAttr::RawModule(span, s, vs)),
            _ => Err(Diagnostic::span_error(span, "expected an identifier")),
        }
    } else if str_eq(keyword.as_str(), "inline_js") {
        match value {
            AttrValue::Str(s, vs) => Ok(BindgenAttr::InlineJs(span, s, vs)),
            AttrValue::Ident(s, vs) => Ok(BindgenAttr::InlineJs(span, s, vs)),
            _ => Err(Diagnostic::span_error(span, "expected an identifier")),
        }
    } else if str_eq(keyword.as_str(), "js_name") {
        match value {
            AttrValue::Str(s, vs) => Ok(BindgenAttr::JsName(span, s, vs)),
            AttrValue::Ident(s, vs) => Ok(BindgenAttr::JsName(span, s, vs)),
            _ => Err(Diagnostic::span_error(span, "expected an identifier")),
        }
    } else if str_eq(keyword.as_str(), "js_class") {
        match value {
            AttrValue::Str(s, vs) => Ok(BindgenAttr::JsClass(span, s, vs)),
            AttrValue::Ident(s, vs) => Ok(BindgenAttr::JsClass(span, s, vs)),
            _ => Err(Diagnostic::span_error(span, "expected an identifier")),
        }
    } else if str_eq(keyword.as_str(), "is_type_of") {
        match value {
            AttrValue::Expr(s, vs) => Ok(BindgenAttr::IsTypeOf(span, s)),
            AttrValue::Ident(s, vs) => Ok(BindgenAttr::IsTypeOf(span, s)),
            AttrValue::Str(s, vs) => Ok(BindgenAttr::IsTypeOf(span, s)),
            _ => Err(Diagnostic::span_error(span, "expected an expression")),
        }
    } else if str_eq(keyword.as_str(), "extends") {
        match value {
            AttrValue::PathValue(p, vs) => {
                proof {
                    crate::ast::lemma_path_eq_reflexive(p);
                }
                Ok(BindgenAttr::Extends(span, p))
            },
            AttrValue::Ident(s, vs) => {
                let mut segments: Vec<PathSegment> = Vec::new();
                segments.push(PathSegment { ident: s, arguments: PathArguments::NoArgs });
                Ok(BindgenAttr::Extends(span, Path { leading_colon: false, segments }))
            },
            _ => Err(Diagnostic::span_error(span, "expected a path")),
        }
    } else {
        Err(Diagnostic::span_error(span, "unknown attribute"))
    }
}

/// An ordered bag of attributes, each next to its consumed flag.
#[derive(Debug, PartialEq, Eq)]
pub struct BindgenAttrs {
    /// List of parsed attributes, each with its consumed flag.
    pub attrs: Vec<(bool, BindgenAttr)>,
}

/// Whether every raw attribute of the sequence parses.
pub open spec fn all_attrs_parse(raws: Seq<RawAttr>) -> bool {
    forall|i: int| 0 <= i < raws.len() ==> attr_parse_ok(#[trigger] raws[i])
}

/// Whether the bag entries are the parses of the raw attributes, in order,
/// all unconsumed.
pub open spec fn bag_matches_raws(
    entries: Seq<(bool, BindgenAttr)>,
    raws: Seq<RawAttr>,
) -> bool {
    entries.len() == raws.len() && forall|i: int|
        0 <= i < raws.len() ==> (#[trigger] entries[i]).0 == false && parsed_attr_matches(
            raws[i],
            entries[i].1,
        )
}

/// The first index at or after `i` whose attribute satisfies `f`.
pub open spec fn first_from(
    entries: Seq<(bool, BindgenAttr)>,
    f: spec_fn(BindgenAttr) -> bool,
    i: int,
) -> Option<int>
    decreases entries.len() - i,
    when 0 <= i <= entries.len()
{
    if i >= entries.len() {
        None
    } else if f(entries[i].1) {
        Some(i)
    } else {
        first_from(entries, f, i + 1)
    }
}

/// The first index whose attribute satisfies `f`.
pub open spec fn first_match(
    entries: Seq<(bool, BindgenAttr)>,
    f: spec_fn(BindgenAttr) -> bool,
) -> Option<int> {
    first_from(entries, f, 0)
}

/// What an accessor does to the bag: when a first match exists, exactly its
/// flag is set; otherwise nothing changes.
pub open spec fn accessor_marks(
    pre: Seq<(bool, BindgenAttr)>,
    post: Seq<(bool, BindgenAttr)>,
    f: spec_fn(BindgenAttr) -> bool,
) -> bool {
    match first_match(pre, f) {
        Some(i) => post == pre.update(i, (true, pre[i].1)),
        None => post == pre,
    }
}

impl BindgenAttrs {
    /// An empty bag; creating it counts one parse towards the audit.
    pub fn new(state: &mut AttributeParseState) -> (r: BindgenAttrs)
        requires
            old(state).parsed < usize::MAX,
        ensures
            final(state).parsed == old(state).parsed + 1,
            final(state).checks == old(state).checks,
            final(state).strict == old(state).strict,
            r.attrs@.len() == 0,
    {
        state.parsed = state.parsed + 1;
        BindgenAttrs { attrs: Vec::new() }
    }

    /// Parses a whole attribute list into a fresh bag.  The bag counts as
    /// parsed even when a keyword is refused.
    #[verifier::loop_isolation(false)]
    pub fn parse(state: &mut AttributeParseState, list: AttrList) -> (r: Result<
        BindgenAttrs,
        Diagnostic,
    >)
        requires
            old(state).parsed < usize::MAX,
        ensures
            final(state).parsed == old(state).parsed + 1,
            final(state).checks == old(state).checks,
            final(state).strict == old(state).strict,
            r is Ok <==> all_attrs_parse(list.attrs@),
            r is Ok ==> bag_matches_raws(r->Ok_0.attrs@, list.attrs@),
    {
        let mut bag = BindgenAttrs::new(state);
        let mut raws = list.attrs;
        let orig_len = raws.len();
        let ghost orig = raws@;
        let mut k: usize = 0;
        while raws.len() > 0
            invariant
                k <= orig_len,
                orig_len == orig.len(),
                k + raws@.len() == orig.len(),
                raws@ =~= orig.skip(k as int),
                bag.attrs@.len() == k,
                forall|i: int|
                    0 <= i < k ==> (#[trigger] bag.attrs@[i]).0 == false && parsed_attr_matches(
                        orig[i],
                        bag.attrs@[i].1,
                    ),
                forall|i: int| 0 <= i < k ==> attr_parse_ok(#[trigger] orig[i]),
            decreases raws@.len(),
        {
            let raw = raws.remove(0);
            proof {
                assert(raw == orig[k as int]);
                assert(raws@ =~= orig.skip(k as int + 1));
            }
            match parse_attr(raw) {
                Ok(a) => {
                    bag.attrs.push((false, a));
                },
                Err(d) => {
                    proof {
                        assert(!attr_parse_ok(orig[k as int]));
                        assert(!all_attrs_parse(orig));
                    }
                    return Err(d);
                },
            }
            k = k + 1;
        }
        proof {
            assert(orig.skip(k as int).len() == 0);
            assert(k == orig.len());
        }
        Ok(bag)
    }

    /// Sets the consumed flag of the entry at `i`, changing nothing else.
    fn mark_used(&mut self, i: usize)
        requires
            i < old(self).attrs@.len(),
        ensures
            final(self).attrs@ == old(self).attrs@.update(
                i as int,
                (true, old(self).attrs@[i as int].1),
            ),
    {
        let dummy_span = Span { lo: 0, hi: 0 };
        let mut entry: (bool, BindgenAttr) = (true, BindgenAttr::Catch(dummy_span));
        self.attrs.set_and_swap(i, &mut entry);
        let mut back: (bool, BindgenAttr) = (true, entry.1);
        self.attrs.set_and_swap(i, &mut back);
        proof {
            assert(final(self).attrs@ =~= old(self).attrs@.update(
                i as int,
                (true, old(self).attrs@[i as int].1),
            ));
        }
    }

    /// Audits the bag, consuming it: one check towards the audit; in strict
    /// mode every attribute still unconsumed is reported at its keyword.
    pub fn check_used(self, state: &mut AttributeParseState) -> (r: Result<(), Diagnostic>)
        requires
            old(state).checks < usize::MAX,
        ensures
            final(state).checks == old(state).checks + 1,
            final(state).parsed == old(state).parsed,
            final(state).strict == old(state).strict,
            !old(state).strict ==> r is Ok,
            old(state).strict ==> ((r is Ok) <==> (forall|i: int|
                0 <= i < self.attrs@.len() ==> (#[trigger] self.attrs@[i]).0)),
    {
        state.checks = state.checks + 1;
        if !state.strict {
            return Ok(());
        }
        let mut errors: Vec<Diagnostic> = Vec::new();
        let mut i: usize = 0;
        while i < self.attrs.len()
            invariant
                0 <= i <= self.attrs@.len(),
                errors@.len() == 0 <==> (forall|j: int|
                    0 <= j < i ==> (#[trigger] self.attrs@[j]).0),
            decreases self.attrs@.len() - i,
        {
            let (used, attr) = &self.attrs[i];
            if !*used {
                errors.push(
                    Diagnostic::span_error(attr.span(), "unused #[wasm_bindgen] attribute"),
                );
            }
            i = i + 1;
        }
        Diagnostic::from_vec(errors)
    }
}
impl BindgenAttrs {

    /// Returns the first `Catch` attribute and marks it consumed.
    #[verifier::loop_isolation(false)]
    pub fn catch(&mut self) -> (r: Option<Span>)
        ensures
            accessor_marks(
                old(self).attrs@,
                final(self).attrs@,
                (|a: BindgenAttr| a is Catch),
            ),
            match first_match(old(self).attrs@, (|a: BindgenAttr| a is Catch)) {
                Some(i) => r == Some(old(self).attrs@[i].1->Catch_0),
                None => r is None,
            },
    {
        let ghost f = (|a: BindgenAttr| a is Catch);
        let mut i: usize = 0;
        while i < self.attrs.len()
            invariant
                0 <= i <= self.attrs@.len(),
                self.attrs@ == old(self).attrs@,
                first_from(old(self).attrs@, f, 0) == first_from(old(self).attrs@, f, i as int),
                forall|j: int| 0 <= j < i ==> !f((#[trigger] old(self).attrs@[j]).1),
            decreases self.attrs@.len() - i,
        {
            match &self.attrs[i].1 {
                BindgenAttr::Catch(sp) => {
                    let span = *sp;
                    self.mark_used(i);
                    return Some(span);
                },
                _ => {},
            }
            i = i + 1;
        }
        None
    }


    /// Returns the first `Constructor` attribute and marks it consumed.
    #[verifier::loop_isolation(false)]
    pub fn constructor(&mut self) -> (r: Option<Span>)
        ensures
            accessor_marks(
                old(self).attrs@,
                final(self).attrs@,
                (|a: BindgenAttr| a is Constructor),
            ),
            match first_match(old(self).attrs@, (|a: BindgenAttr| a is Constructor)) {
                Some(i) => r == Some(old(self).attrs@[i].1->Constructor_0),
                None => r is None,
            },
    {
        let ghost f = (|a: BindgenAttr| a is Constructor);
        let mut i: usize = 0;
        while i < self.attrs.len()
            invariant
                0 <= i <= self.attrs@.len(),
                self.attrs@ == old(self).attrs@,
                first_from(old(self).attrs@, f, 0) == first_from(old(self).attrs@, f, i as int),
                forall|j: int| 0 <= j < i ==> !f((#[trigger] old(self).attrs@[j]).1),
            decreases self.attrs@.len() - i,
        {
            match &self.attrs[i].1 {
                BindgenAttr::Constructor(sp) => {
                    let span = *sp;
                    self.mark_used(i);
                    return Some(span);
                },
                _ => {},
            }
            i = i + 1;
        }
        None
    }


    /// Returns the first `Method` attribute and marks it consumed.
    #[verifier::loop_isolation(false)]
    pub fn method(&mut self) -> (r: Option<Span>)
        ensures
            accessor_marks(
                old(self).attrs@,
                final(self).attrs@,
                (|a: BindgenAttr| a is Method),
            ),
            match first_match(old(self).attrs@, (|a: BindgenAttr| a is Method)) {
                Some(i) => r == Some(old(self).attrs@[i].1->Method_0),
                None => r is None,
            },
    {
        let ghost f = (|a: BindgenAttr| a is Method);
        let mut i: usize = 0;
        while i < self.attrs.len()
            invariant
                0 <= i <= self.attrs@.len(),
                self.attrs@ == old(self).attrs@,
                first_from(old(self).attrs@, f, 0) == first_from(old(self).attrs@, f, i as int),
                forall|j: int| 0 <= j < i ==> !f((#[trigger] old(self).attrs@[j]).1),
            decreases self.attrs@.len() - i,
        {
            match &self.attrs[i].1 {
                BindgenAttr::Method(sp) => {
                    let span = *sp;
                    self.mark_used(i);
                    return Some(span);
                },
                _ => {},
            }
            i = i + 1;
        }
        None
    }


    /// Returns the first `IndexingGetter` attribute and marks it consumed.
    #[verifier::loop_isolation(false)]
    pub fn indexing_getter(&mut self) -> (r: Option<Span>)
        ensures
            accessor_marks(
                old(self).attrs@,
                final(self).attrs@,
                (|a: BindgenAttr| a is IndexingGetter),
            ),
            match first_match(old(self).attrs@, (|a: BindgenAttr| a is IndexingGetter)) {
                Some(i) => r == Some(old(self).attrs@[i].1->IndexingGetter_0),
                None => r is None,
            },
    {
        let ghost f = (|a: BindgenAttr| a is IndexingGetter);
        let mut i: usize = 0;
        while i < self.attrs.len()
            invariant
                0 <= i <= self.attrs@.len(),
                self.attrs@ == old(self).attrs@,
                first_from(old(self).attrs@, f, 0) == first_from(old(self).attrs@, f, i as int),
                forall|j: int| 0 <= j < i ==> !f((#[trigger] old(self).attrs@[j]).1),
            decreases self.attrs@.len() - i,
        {
            match &self.attrs[i].1 {
                BindgenAttr::IndexingGetter(sp) => {
                    let span = *sp;
                    self.mark_used(i);
                    return Some(span);
                },
                _ => {},
            }
            i = i + 1;
        }
        None
    }


    /// Returns the first `IndexingSetter` attribute and marks it consumed.
    #[verifier::loop_isolation(false)]
    pub fn indexing_setter(&mut self) -> (r: Option<Span>)
        ensures
            accessor_marks(
                old(self).attrs@,
                final(self).attrs@,
                (|a: BindgenAttr| a is IndexingSetter),
            ),
            match first_match(old(self).attrs@, (|a: BindgenAttr| a is IndexingSetter)) {
                Some(i) => r == Some(old(self).attrs@[i].1->IndexingSetter_0),
                None => r is None,
            },
    {
        let ghost f = (|a: BindgenAttr| a is IndexingSetter);
        let mut i: usize = 0;
        while i < self.attrs.len()
            invariant
                0 <= i <= self.attrs@.len(),
                self.attrs@ == old(self).attrs@,
                first_from(old(self).attrs@, f, 0) == first_from(old(self).attrs@, f, i as int),
                forall|j: int| 0 <= j < i ==> !f((#[trigger] old(self).attrs@[j]).1),
            decreases self.attrs@.len() - i,
        {
            match &self.attrs[i].1 {
                BindgenAttr::IndexingSetter(sp) => {
                    let span = *sp;
                    self.mark_used(i);
                    return Some(span);
                },
                _ => {},
            }
            i = i + 1;
        }
        None
    }


    /// Returns the first `IndexingDeleter` attribute and marks it consumed.
    #[verifier::loop_isolation(false)]
    pub fn indexing_deleter(&mut self) -> (r: Option<Span>)
        ensures
            accessor_marks(
                old(self).attrs@,
                final(self).attrs@,
                (|a: BindgenAttr| a is IndexingDeleter),
            ),
            match first_match(old(self).attrs@, (|a: BindgenAttr| a is IndexingDeleter)) {
                Some(i) => r == Some(old(self).attrs@[i].1->IndexingDeleter_0),
                None => r is None,
            },
    {
        let ghost f = (|a: BindgenAttr| a is IndexingDeleter);
        let mut i: usize = 0;
        while i < self.attrs.len()
            invariant
                0 <= i <= self.attrs@.len(),
                self.attrs@ == old(self).attrs@,
                first_from(old(self).attrs@, f, 0) == first_from(old(self).attrs@, f, i as int),
                forall|j: int| 0 <= j < i ==> !f((#[trigger] old(self).attrs@[j]).1),
            decreases self.attrs@.len() - i,
        {
            match &self.attrs[i].1 {
                BindgenAttr::IndexingDeleter(sp) => {
                    let span = *sp;
                    self.mark_used(i);
                    return Some(span);
                },
                _ => {},
            }
            i = i + 1;
        }
        None
    }


    /// Returns the first `StructuralDispatch` attribute and marks it consumed.
    #[verifier::loop_isolation(false)]
    pub fn structural(&mut self) -> (r: Option<Span>)
        ensures
            accessor_marks(
                old(self).attrs@,
                final(self).attrs@,
                (|a: BindgenAttr| a is StructuralDispatch),
            ),
            match first_match(old(self).attrs@, (|a: BindgenAttr| a is StructuralDispatch)) {
                Some(i) => r == Some(old(self).attrs@[i].1->StructuralDispatch_0),
                None => r is None,
            },
    {
        let ghost f = (|a: BindgenAttr| a is StructuralDispatch);
        let mut i: usize = 0;
        while i < self.attrs.len()
            invariant
                0 <= i <= self.attrs@.len(),
                self.attrs@ == old(self).attrs@,
                first_from(old(self).attrs@, f, 0) == first_from(old(self).attrs@, f, i as int),
                forall|j: int| 0 <= j < i ==> !f((#[trigger] old(self).attrs@[j]).1),
            decreases self.attrs@.len() - i,
        {
            match &self.attrs[i].1 {
                BindgenAttr::StructuralDispatch(sp) => {
                    let span = *sp;
                    self.mark_used(i);
                    return Some(span);
                },
                _ => {},
            }
            i = i + 1;
        }
        None
    }


    /// Returns the first `Final` attribute and marks it consumed.
    #[verifier::loop_isolation(false)]
    pub fn final_attr(&mut self) -> (r: Option<Span>)
        ensures
            accessor_marks(
                old(self).attrs@,
                final(self).attrs@,
                (|a: BindgenAttr| a is Final),
            ),
            match first_match(old(self).attrs@, (|a: BindgenAttr| a is Final)) {
                Some(i) => r == Some(old(self).attrs@[i].1->Final_0),
                None => r is None,
            },
    {
        let ghost f = (|a: BindgenAttr| a is Final);
        let mut i: usize = 0;
        while i < self.attrs.len()
            invariant
                0 <= i <= self.attrs@.len(),
                self.attrs@ == old(self).attrs@,
                first_from(old(self).attrs@, f, 0) == first_from(old(self).attrs@, f, i as int),
                forall|j: int| 0 <= j < i ==> !f((#[trigger] old(self).attrs@[j]).1),
            decreases self.attrs@.len() - i,
        {
            match &self.attrs[i].1 {
                BindgenAttr::Final(sp) => {
                    let span = *sp;
                    self.mark_used(i);
                    return Some(span);
                },
                _ => {},
            }
            i = i + 1;
        }
        None
    }


    /// Returns the first `Readonly` attribute and marks it consumed.
    #[verifier::loop_isolation(false)]
    pub fn readonly(&mut self) -> (r: Option<Span>)
        ensures
            accessor_marks(
                old(self).attrs@,
                final(self).attrs@,
                (|a: BindgenAttr| a is Readonly),
            ),
            match first_match(old(self).attrs@, (|a: BindgenAttr| a is Readonly)) {
                Some(i) => r == Some(old(self).attrs@[i].1->Readonly_0),
                None => r is None,
            },
    {
        let ghost f = (|a: BindgenAttr| a is Readonly);
        let mut i: usize = 0;
        while i < self.attrs.len()
            invariant
                0 <= i <= self.attrs@.len(),
                self.attrs@ == old(self).attrs@,
                first_from(old(self).attrs@, f, 0) == first_from(old(self).attrs@, f, i as int),
                forall|j: int| 0 <= j < i ==> !f((#[trigger] old(self).attrs@[j]).1),
            decreases self.attrs@.len() - i,
        {
            match &self.attrs[i].1 {
                BindgenAttr::Readonly(sp) => {
                    let span = *sp;
                    self.mark_used(i);
                    return Some(span);
                },
                _ => {},
            }
            i = i + 1;
        }
        None
    }


    /// Returns the first `Variadic` attribute and marks it consumed.
    #[verifier::loop_isolation(false)]
    pub fn variadic(&mut self) -> (r: Option<Span>)
        ensures
            accessor_marks(
                old(self).attrs@,
                final(self).attrs@,
                (|a: BindgenAttr| a is Variadic),
            ),
            match first_match(old(self).attrs@, (|a: BindgenAttr| a is Variadic)) {
                Some(i) => r == Some(old(self).attrs@[i].1->Variadic_0),
                None => r is None,
            },
    {
        let ghost f = (|a: BindgenAttr| a is Variadic);
        let mut i: usize = 0;
        while i < self.attrs.len()
            invariant
                0 <= i <= self.attrs@.len(),
                self.attrs@ == old(self).attrs@,
                first_from(old(self).attrs@, f, 0) == first_from(old(self).attrs@, f, i as int),
                forall|j: int| 0 <= j < i ==> !f((#[trigger] old(self).attrs@[j]).1),
            decreases self.attrs@.len() - i,
        {
            match &self.attrs[i].1 {
                BindgenAttr::Variadic(sp) => {
                    let span = *sp;
                    self.mark_used(i);
                    return Some(span);
                },
                _ => {},
            }
            i = i + 1;
        }
        None
    }


    /// Returns the first `TypescriptCustomSection` attribute and marks it consumed.
    #[verifier::loop_isolation(false)]
    pub fn typescript_custom_section(&mut self) -> (r: Option<Span>)
        ensures
            accessor_marks(
                old(self).attrs@,
                final(self).attrs@,
                (|a: BindgenAttr| a is TypescriptCustomSection),
            ),
            match first_match(old(self).attrs@, (|a: BindgenAttr| a is TypescriptCustomSection)) {
                Some(i) => r == Some(old(self).attrs@[i].1->TypescriptCustomSection_0),
                None => r is None,
            },
    {
        let ghost f = (|a: BindgenAttr| a is TypescriptCustomSection);
        let mut i: usize = 0;
        while i < self.attrs.len()
            invariant
                0 <= i <= self.attrs@.len(),
                self.attrs@ == old(self).attrs@,
                first_from(old(self).attrs@, f, 0) == first_from(old(self).attrs@, f, i as int),
                forall|j: int| 0 <= j < i ==> !f((#[trigger] old(self).attrs@[j]).1),
            decreases self.attrs@.len() - i,
        {
            match &self.attrs[i].1 {
                BindgenAttr::TypescriptCustomSection(sp) => {
                    let span = *sp;
                    self.mark_used(i);
                    return Some(span);
                },
                _ => {},
            }
            i = i + 1;
        }
        None
    }


    /// Returns the first `Start` attribute and marks it consumed.
    #[verifier::loop_isolation(false)]
    pub fn start(&mut self) -> (r: Option<Span>)
        ensures
            accessor_marks(
                old(self).attrs@,
                final(self).attrs@,
                (|a: BindgenAttr| a is Start),
            ),
            match first_match(old(self).attrs@, (|a: BindgenAttr| a is Start)) {
                Some(i) => r == Some(old(self).attrs@[i].1->Start_0),
                None => r is None,
            },
    {
        let ghost f = (|a: BindgenAttr| a is Start);
        let mut i: usize = 0;
        while i < self.attrs.len()
            invariant
                0 <= i <= self.attrs@.len(),
                self.attrs@ == old(self).attrs@,
                first_from(old(self).attrs@, f, 0) == first_from(old(self).attrs@, f, i as int),
                forall|j: int| 0 <= j < i ==> !f((#[trigger] old(self).attrs@[j]).1),
            decreases self.attrs@.len() - i,
        {
            match &self.attrs[i].1 {
                BindgenAttr::Start(sp) => {
                    let span = *sp;
                    self.mark_used(i);
                    return Some(span);
                },
                _ => {},
            }
            i = i + 1;
        }
        None
    }


    /// Returns the first `Skip` attribute and marks it consumed.
    #[verifier::loop_isolation(false)]
    pub fn skip(&mut self) -> (r: Option<Span>)
        ensures
            accessor_marks(
                old(self).attrs@,
                final(self).attrs@,
                (|a: BindgenAttr| a is Skip),
            ),
            match first_match(old(self).attrs@, (|a: BindgenAttr| a is Skip)) {
                Some(i) => r == Some(old(self).attrs@[i].1->Skip_0),
                None => r is None,
            },
    {
        let ghost f = (|a: BindgenAttr| a is Skip);
        let mut i: usize = 0;
        while i < self.attrs.len()
            invariant
                0 <= i <= self.attrs@.len(),
                self.attrs@ == old(self).attrs@,
                first_from(old(self).attrs@, f, 0) == first_from(old(self).attrs@, f, i as int),
                forall|j: int| 0 <= j < i ==> !f((#[trigger] old(self).attrs@[j]).1),
            decreases self.attrs@.len() - i,
        {
            match &self.attrs[i].1 {
                BindgenAttr::Skip(sp) => {
                    let span = *sp;
                    self.mark_used(i);
                    return Some(span);
                },
                _ => {},
            }
            i = i + 1;
        }
        None
    }


    /// Returns the first `StaticMethodOf` attribute and marks it consumed.
    #[verifier::loop_isolation(false)]
    pub fn static_method_of(&mut self) -> (r: Option<String>)
        ensures
            accessor_marks(
                old(self).attrs@,
                final(self).attrs@,
                (|a: BindgenAttr| a is StaticMethodOf),
            ),
            match first_match(old(self).attrs@, (|a: BindgenAttr| a is StaticMethodOf)) {
                Some(i) => r == Some(old(self).attrs@[i].1->StaticMethodOf_1),
                None => r is None,
            },
    {
        let ghost f = (|a: BindgenAttr| a is StaticMethodOf);
        let mut i: usize = 0;
        while i < self.attrs.len()
            invariant
                0 <= i <= self.attrs@.len(),
                self.attrs@ == old(self).attrs@,
                first_from(old(self).attrs@, f, 0) == first_from(old(self).attrs@, f, i as int),
                forall|j: int| 0 <= j < i ==> !f((#[trigger] old(self).attrs@[j]).1),
            decreases self.attrs@.len() - i,
        {
            match &self.attrs[i].1 {
                BindgenAttr::StaticMethodOf(sp, name) => {
                    let out = name.clone();
                    self.mark_used(i);
                    return Some(out);
                },
                _ => {},
            }
            i = i + 1;
        }
        None
    }


    /// Returns the first `JsNamespace` attribute and marks it consumed.
    #[verifier::loop_isolation(false)]
    pub fn js_namespace(&mut self) -> (r: Option<String>)
        ensures
            accessor_marks(
                old(self).attrs@,
                final(self).attrs@,
                (|a: BindgenAttr| a is JsNamespace),
            ),
            match first_match(old(self).attrs@, (|a: BindgenAttr| a is JsNamespace)) {
                Some(i) => r == Some(old(self).attrs@[i].1->JsNamespace_1),
                None => r is None,
            },
    {
        let ghost f = (|a: BindgenAttr| a is JsNamespace);
        let mut i: usize = 0;
        while i < self.attrs.len()
            invariant
                0 <= i <= self.attrs@.len(),
                self.attrs@ == old(self).attrs@,
                first_from(old(self).attrs@, f, 0) == first_from(old(self).attrs@, f, i as int),
                forall|j: int| 0 <= j < i ==> !f((#[trigger] old(self).attrs@[j]).1),
            decreases self.attrs@.len() - i,
        {
            match &self.attrs[i].1 {
                BindgenAttr::JsNamespace(sp, name) => {
                    let out = name.clone();
                    self.mark_used(i);
                    return Some(out);
                },
                _ => {},
            }
            i = i + 1;
        }
        None
    }


    /// Returns the first `Getter` attribute and marks it consumed.
    #[verifier::loop_isolation(false)]
    pub fn getter(&mut self) -> (r: Option<Option<String>>)
        ensures
            accessor_marks(
                old(self).attrs@,
                final(self).attrs@,
                (|a: BindgenAttr| a is Getter),
            ),
            match first_match(old(self).attrs@, (|a: BindgenAttr| a is Getter)) {
                Some(i) => r == Some(old(self).attrs@[i].1->Getter_1),
                None => r is None,
            },
    {
        let ghost f = (|a: BindgenAttr| a is Getter);
        let mut i: usize = 0;
        while i < self.attrs.len()
            invariant
                0 <= i <= self.attrs@.len(),
                self.attrs@ == old(self).attrs@,
                first_from(old(self).attrs@, f, 0) == first_from(old(self).attrs@, f, i as int),
                forall|j: int| 0 <= j < i ==> !f((#[trigger] old(self).attrs@[j]).1),
            decreases self.attrs@.len() - i,
        {
            match &self.attrs[i].1 {
                BindgenAttr::Getter(sp, name) => {
                    let out = match name {
                        Some(s) => Some(s.clone()),
                        None => None,
                    };
                    self.mark_used(i);
                    return Some(out);
                },
                _ => {},
            }
            i = i + 1;
        }
        None
    }


    /// Returns the first `Setter` attribute and marks it consumed.
    #[verifier::loop_isolation(false)]
    pub fn setter(&mut self) -> (r: Option<Option<String>>)
        ensures
            accessor_marks(
                old(self).attrs@,
                final(self).attrs@,
                (|a: BindgenAttr| a is Setter),
            ),
            match first_match(old(self).attrs@, (|a: BindgenAttr| a is Setter)) {
                Some(i) => r == Some(old(self).attrs@[i].1->Setter_1),
                None => r is None,
            },
    {
        let ghost f = (|a: BindgenAttr| a is Setter);
        let mut i: usize = 0;
        while i < self.attrs.len()
            invariant
                0 <= i <= self.attrs@.len(),
                self.attrs@ == old(self).attrs@,
                first_from(old(self).attrs@, f, 0) == first_from(old(self).attrs@, f, i as int),
                forall|j: int| 0 <= j < i ==> !f((#[trigger] old(self).attrs@[j]).1),
            decreases self.attrs@.len() - i,
        {
            match &self.attrs[i].1 {
                BindgenAttr::Setter(sp, name) => {
                    let out = match name {
                        Some(s) => Some(s.clone()),
                        None => None,
                    };
                    self.mark_used(i);
                    return Some(out);
                },
                _ => {},
            }
            i = i + 1;
        }
        None
    }


    /// Returns the first `Module` attribute and marks it consumed.
    #[verifier::loop_isolation(false)]
    pub fn module(&mut self) -> (r: Option<(String, Span)>)
        ensures
            accessor_marks(
                old(self).attrs@,
                final(self).attrs@,
                (|a: BindgenAttr| a is Module),
            ),
            match first_match(old(self).attrs@, (|a: BindgenAttr| a is Module)) {
                Some(i) => r == Some((old(self).attrs@[i].1->Module_1, old(self).attrs@[i].1->Module_2)),
                None => r is None,
            },
    {
        let ghost f = (|a: BindgenAttr| a is Module);
        let mut i: usize = 0;
        while i < self.attrs.len()
            invariant
                0 <= i <= self.attrs@.len(),
                self.attrs@ == old(self).attrs@,
                first_from(old(self).attrs@, f, 0) == first_from(old(self).attrs@, f, i as int),
                forall|j: int| 0 <= j < i ==> !f((#[trigger] old(self).attrs@[j]).1),
            decreases self.attrs@.len() - i,
        {
            match &self.attrs[i].1 {
                BindgenAttr::Module(sp, s, vs) => {
                    let out = (s.clone(), *vs);
                    self.mark_used(i);
                    return Some(out);
                },
                _ => {},
            }
            i = i + 1;
        }
        None
    }


    /// Returns the first `RawModule` attribute and marks it consumed.
    #[verifier::loop_isolation(false)]
    pub fn raw_module(&mut self) -> (r: Option<(String, Span)>)
        ensures
            accessor_marks(
                old(self).attrs@,
                final(self).attrs@,
                (|a: BindgenAttr| a is RawModule),
            ),
            match first_match(old(self).attrs@, (|a: BindgenAttr| a is RawModule)) {
                Some(i) => r == Some((old(self).attrs@[i].1->RawModule_1, old(self).attrs@[i].1->RawModule_2)),
                None => r is None,
            },
    {
        let ghost f = (|a: BindgenAttr| a is RawModule);
        let mut i: usize = 0;
        while i < self.attrs.len()
            invariant
                0 <= i <= self.attrs@.len(),
                self.attrs@ == old(self).attrs@,
                first_from(old(self).attrs@, f, 0) == first_from(old(self).attrs@, f, i as int),
                forall|j: int| 0 <= j < i ==> !f((#[trigger] old(self).attrs@[j]).1),
            decreases self.attrs@.len() - i,
        {
            match &self.attrs[i].1 {
                BindgenAttr::RawModule(sp, s, vs) => {
                    let out = (s.clone(), *vs);
                    self.mark_used(i);
                    return Some(out);
                },
                _ => {},
            }
            i = i + 1;
        }
        None
    }


    /// Returns the first `InlineJs` attribute and marks it consumed.
    #[verifier::loop_isolation(false)]
    pub fn inline_js(&mut self) -> (r: Option<(String, Span)>)
        ensures
            accessor_marks(
                old(self).attrs@,
                final(self).attrs@,
                (|a: BindgenAttr| a is InlineJs),
            ),
            match first_match(old(self).attrs@, (|a: BindgenAttr| a is InlineJs)) {
                Some(i) => r == Some((old(self).attrs@[i].1->InlineJs_1, old(self).attrs@[i].1->InlineJs_2)),
                None => r is None,
            },
    {
        let ghost f = (|a: BindgenAttr| a is InlineJs);
        let mut i: usize = 0;
        while i < self.attrs.len()
            invariant
                0 <= i <= self.attrs@.len(),
                self.attrs@ == old(self).attrs@,
                first_from(old(self).attrs@, f, 0) == first_from(old(self).attrs@, f, i as int),
                forall|j: int| 0 <= j < i ==> !f((#[trigger] old(self).attrs@[j]).1),
            decreases self.attrs@.len() - i,
        {
            match &self.attrs[i].1 {
                BindgenAttr::InlineJs(sp, s, vs) => {
                    let out = (s.clone(), *vs);
                    self.mark_used(i);
                    return Some(out);
                },
                _ => {},
            }
            i = i + 1;
        }
        None
    }


    /// Returns the first `JsName` attribute and marks it consumed.
    #[verifier::loop_isolation(false)]
    pub fn js_name(&mut self) -> (r: Option<(String, Span)>)
        ensures
            accessor_marks(
                old(self).attrs@,
                final(self).attrs@,
                (|a: BindgenAttr| a is JsName),
            ),
            match first_match(old(self).attrs@, (|a: BindgenAttr| a is JsName)) {
                Some(i) => r == Some((old(self).attrs@[i].1->JsName_1, old(self).attrs@[i].1->JsName_2)),
                None => r is None,
            },
    {
        let ghost f = (|a: BindgenAttr| a is JsName);
        let mut i: usize = 0;
        while i < self.attrs.len()
            invariant
                0 <= i <= self.attrs@.len(),
                self.attrs@ == old(self).attrs@,
                first_from(old(self).attrs@, f, 0) == first_from(old(self).attrs@, f, i as int),
                forall|j: int| 0 <= j < i ==> !f((#[trigger] old(self).attrs@[j]).1),
            decreases self.attrs@.len() - i,
        {
            match &self.attrs[i].1 {
                BindgenAttr::JsName(sp, s, vs) => {
                    let out = (s.clone(), *vs);
                    self.mark_used(i);
                    return Some(out);
                },
                _ => {},
            }
            i = i + 1;
        }
        None
    }


    /// Returns the first `JsClass` attribute and marks it consumed.
    #[verifier::loop_isolation(false)]
    pub fn js_class(&mut self) -> (r: Option<(String, Span)>)
        ensures
            accessor_marks(
                old(self).attrs@,
                final(self).attrs@,
                (|a: BindgenAttr| a is JsClass),
            ),
            match first_match(old(self).attrs@, (|a: BindgenAttr| a is JsClass)) {
                Some(i) => r == Some((old(self).attrs@[i].1->JsClass_1, old(self).attrs@[i].1->JsClass_2)),
                None => r is None,
            },
    {
        let ghost f = (|a: BindgenAttr| a is JsClass);
        let mut i: usize = 0;
        while i < self.attrs.len()
            invariant
                0 <= i <= self.attrs@.len(),
                self.attrs@ == old(self).attrs@,
                first_from(old(self).attrs@, f, 0) == first_from(old(self).attrs@, f, i as int),
                forall|j: int| 0 <= j < i ==> !f((#[trigger] old(self).attrs@[j]).1),
            decreases self.attrs@.len() - i,
        {
            match &self.attrs[i].1 {
                BindgenAttr::JsClass(sp, s, vs) => {
                    let out = (s.clone(), *vs);
                    self.mark_used(i);
                    return Some(out);
                },
                _ => {},
            }
            i = i + 1;
        }
        None
    }


    /// Returns the first `IsTypeOf` attribute and marks it consumed.
    #[verifier::loop_isolation(false)]
    pub fn is_type_of(&mut self) -> (r: Option<String>)
        ensures
            accessor_marks(
                old(self).attrs@,
                final(self).attrs@,
                (|a: BindgenAttr| a is IsTypeOf),
            ),
            match first_match(old(self).attrs@, (|a: BindgenAttr| a is IsTypeOf)) {
                Some(i) => r == Some(old(self).attrs@[i].1->IsTypeOf_1),
                None => r is None,
            },
    {
        let ghost f = (|a: BindgenAttr| a is IsTypeOf);
        let mut i: usize = 0;
        while i < self.attrs.len()
            invariant
                0 <= i <= self.attrs@.len(),
                self.attrs@ == old(self).attrs@,
                first_from(old(self).attrs@, f, 0) == first_from(old(self).attrs@, f, i as int),
                forall|j: int| 0 <= j < i ==> !f((#[trigger] old(self).attrs@[j]).1),
            decreases self.attrs@.len() - i,
        {
            match &self.attrs[i].1 {
                BindgenAttr::IsTypeOf(sp, s) => {
                    let out = s.clone();
                    self.mark_used(i);
                    return Some(out);
                },
                _ => {},
            }
            i = i + 1;
        }
        None
    }

}

/// Whether an attribute is addressed to the `wasm_bindgen` vocabulary.
pub open spec fn is_wb(a: Attribute) -> bool {
    a.path@.len() > 0 && a.path@[0]@ == "wasm_bindgen"@
}

fn attr_is_wb(a: &Attribute) -> (r: bool)
    ensures
        r == is_wb(*a),
{
    if a.path.len() == 0 {
        false
    } else {
        str_eq(a.path[0].as_str(), "wasm_bindgen")
    }
}

/// The raw keywords collected from every `wasm_bindgen` attribute of the
/// list, in order; nothing when one of those attributes is not a single
/// parenthesised group.
pub open spec fn spec_collect_raws(attrs: Seq<Attribute>) -> Option<Seq<RawAttr>>
    decreases attrs.len(),
{
    if attrs.len() == 0 {
        Some(Seq::empty())
    } else if !is_wb(attrs[0]) {
        spec_collect_raws(attrs.drop_first())
    } else {
        match attrs[0].body {
            AttrBody::EmptyBody => spec_collect_raws(attrs.drop_first()),
            AttrBody::GroupBody(list, extra) => if extra || !list.paren {
                None
            } else {
                match spec_collect_raws(attrs.drop_first()) {
                    Some(tail) => Some(list.attrs@ + tail),
                    None => None,
                }
            },
            AttrBody::OtherBody => None,
        }
    }
}

/// The attributes that `find` leaves on the declaration: those not addressed
/// to `wasm_bindgen`, in order.
pub open spec fn spec_keep_other(attrs: Seq<Attribute>) -> Seq<Attribute>
    decreases attrs.len(),
{
    if attrs.len() == 0 {
        Seq::empty()
    } else if is_wb(attrs[0]) {
        spec_keep_other(attrs.drop_first())
    } else {
        seq![attrs[0]] + spec_keep_other(attrs.drop_first())
    }
}

/// Whether `find` succeeds on the list: every `wasm_bindgen` attribute is a
/// single parenthesised group and every keyword in it parses.
pub open spec fn spec_find_ok(attrs: Seq<Attribute>) -> bool {
    match spec_collect_raws(attrs) {
        Some(raws) => all_attrs_parse(raws),
        None => false,
    }
}

/// Whether a keyword occurs among the raw attributes.
pub open spec fn raw_has(raws: Seq<RawAttr>, kw: Seq<char>) -> bool {
    exists|i: int| 0 <= i < raws.len() && (#[trigger] raws[i]).keyword@ == kw
}

/// A first match at or after `i` exists exactly when some entry from `i` on
/// satisfies the predicate.
pub proof fn lemma_first_from_exists(
    entries: Seq<(bool, BindgenAttr)>,
    f: spec_fn(BindgenAttr) -> bool,
    i: int,
)
    requires
        0 <= i <= entries.len(),
    ensures
        (first_from(entries, f, i) is Some) <==> exists|j: int|
            i <= j < entries.len() && f((#[trigger] entries[j]).1),
    decreases entries.len() - i,
{
    if i < entries.len() {
        lemma_first_from_exists(entries, f, i + 1);
    }
}

/// A first match lies in range and satisfies its predicate.
pub proof fn lemma_first_from_in_range_at(
    entries: Seq<(bool, BindgenAttr)>,
    f: spec_fn(BindgenAttr) -> bool,
    i: int,
)
    requires
        0 <= i <= entries.len(),
    ensures
        first_from(entries, f, i) matches Some(j) ==> i <= j < entries.len() && f(entries[j].1),
    decreases entries.len() - i,
{
    if i < entries.len() && !f(entries[i].1) {
        lemma_first_from_in_range_at(entries, f, i + 1);
    }
}

/// A first match lies in range and satisfies its predicate.
pub proof fn lemma_first_from_in_range_pub(
    entries: Seq<(bool, BindgenAttr)>,
    f: spec_fn(BindgenAttr) -> bool,
)
    ensures
        first_match(entries, f) matches Some(j) ==> 0 <= j < entries.len() && f(entries[j].1),
{
    lemma_first_from_in_range_at(entries, f, 0);
}

/// The first index at or after `i` whose raw keyword is `kw`.
pub open spec fn raw_first(raws: Seq<RawAttr>, kw: Seq<char>, i: int) -> Option<int>
    decreases raws.len() - i,
    when 0 <= i <= raws.len()
{
    if i >= raws.len() {
        None
    } else if raws[i].keyword@ == kw {
        Some(i)
    } else {
        raw_first(raws, kw, i + 1)
    }
}

/// The first index whose raw keyword is `kw`.
pub open spec fn raw_match(raws: Seq<RawAttr>, kw: Seq<char>) -> Option<int> {
    raw_first(raws, kw, 0)
}

/// A first keyword index exists exactly when the keyword occurs, lies in
/// range, carries the keyword, and nothing before it does.
pub proof fn lemma_raw_match_props(raws: Seq<RawAttr>, kw: Seq<char>, i: int)
    requires
        0 <= i <= raws.len(),
    ensures
        (raw_first(raws, kw, i) is Some) <==> exists|j: int|
            i <= j < raws.len() && (#[trigger] raws[j]).keyword@ == kw,
        raw_first(raws, kw, i) matches Some(j) ==> i <= j < raws.len() && raws[j].keyword@ == kw,
    decreases raws.len() - i,
{
    if i < raws.len() && raws[i].keyword@ != kw {
        lemma_raw_match_props(raws, kw, i + 1);
    }
}

/// In a bag parsed from raw keywords, the first attribute of a kind stands
/// exactly where the first raw of its keyword stands, provided the kind and
/// the keyword characterise each other under the parse relation.
pub proof fn lemma_bag_raw_bridge(
    entries: Seq<(bool, BindgenAttr)>,
    raws: Seq<RawAttr>,
    f: spec_fn(BindgenAttr) -> bool,
    kw: Seq<char>,
    i: int,
)
    requires
        bag_matches_raws(entries, raws),
        forall|j: int|
            0 <= j < raws.len() ==> (f((#[trigger] entries[j]).1) <==> raws[j].keyword@ == kw),
        0 <= i <= raws.len(),
    ensures
        first_from(entries, f, i) == raw_first(raws, kw, i),
    decreases raws.len() - i,
{
    if i < raws.len() && !f(entries[i].1) {
        lemma_bag_raw_bridge(entries, raws, f, kw, i + 1);
    }
}

/// In a fully parsed bag, the `catch` attribute stands exactly where the raw
/// keyword `catch` stands.
pub proof fn lemma_bridge_catch(entries: Seq<(bool, BindgenAttr)>, raws: Seq<RawAttr>)
    requires
        bag_matches_raws(entries, raws),
        all_attrs_parse(raws),
    ensures
        first_match(entries, (|a: BindgenAttr| a is Catch)) == raw_match(raws, "catch"@),
        (first_match(entries, (|a: BindgenAttr| a is Catch)) is Some) <==> raw_has(
            raws,
            "catch"@,
        ),
{
    lemma_keywords_distinct();
    assert forall|j: int|
        0 <= j < raws.len() implies (((#[trigger] entries[j]).1 is Catch) <==> raws[j].keyword@
        == "catch"@) by {
        assert(parsed_attr_matches(raws[j], entries[j].1));
        assert(attr_parse_ok(raws[j]));
    }
    lemma_bag_raw_bridge(entries, raws, (|a: BindgenAttr| a is Catch), "catch"@, 0);
    lemma_raw_match_props(raws, "catch"@, 0);
    lemma_first_from_exists(entries, (|a: BindgenAttr| a is Catch), 0);
    if first_match(entries, (|a: BindgenAttr| a is Catch)) is Some {
        let i = first_match(entries, (|a: BindgenAttr| a is Catch))->0;
        lemma_first_from_in_range_pub(entries, (|a: BindgenAttr| a is Catch));
        assert(parsed_attr_matches(raws[i], entries[i].1));
    }
}

/// In a fully parsed bag, the `constructor` attribute stands exactly where the raw
/// keyword `constructor` stands.
pub proof fn lemma_bridge_constructor(entries: Seq<(bool, BindgenAttr)>, raws: Seq<RawAttr>)
    requires
        bag_matches_raws(entries, raws),
        all_attrs_parse(raws),
    ensures
        first_match(entries, (|a: BindgenAttr| a is Constructor)) == raw_match(raws, "constructor"@),
        (first_match(entries, (|a: BindgenAttr| a is Constructor)) is Some) <==> raw_has(
            raws,
            "constructor"@,
        ),
{
    lemma_keywords_distinct();
    assert forall|j: int|
        0 <= j < raws.len() implies (((#[trigger] entries[j]).1 is Constructor) <==> raws[j].keyword@
        == "constructor"@) by {
        assert(parsed_attr_matches(raws[j], entries[j].1));
        assert(attr_parse_ok(raws[j]));
    }
    lemma_bag_raw_bridge(entries, raws, (|a: BindgenAttr| a is Constructor), "constructor"@, 0);
    lemma_raw_match_props(raws, "constructor"@, 0);
    lemma_first_from_exists(entries, (|a: BindgenAttr| a is Constructor), 0);
    if first_match(entries, (|a: BindgenAttr| a is Constructor)) is Some {
        let i = first_match(entries, (|a: BindgenAttr| a is Constructor))->0;
        lemma_first_from_in_range_pub(entries, (|a: BindgenAttr| a is Constructor));
        assert(parsed_attr_matches(raws[i], entries[i].1));
    }
}

/// In a fully parsed bag, the `method` attribute stands exactly where the raw
/// keyword `method` stands.
pub proof fn lemma_bridge_method(entries: Seq<(bool, BindgenAttr)>, raws: Seq<RawAttr>)
    requires
        bag_matches_raws(entries, raws),
        all_attrs_parse(raws),
    ensures
        first_match(entries, (|a: BindgenAttr| a is Method)) == raw_match(raws, "method"@),
        (first_match(entries, (|a: BindgenAttr| a is Method)) is Some) <==> raw_has(
            raws,
            "method"@,
        ),
{
    lemma_keywords_distinct();
    assert forall|j: int|
        0 <= j < raws.len() implies (((#[trigger] entries[j]).1 is Method) <==> raws[j].keyword@
        == "method"@) by {
        assert(parsed_attr_matches(raws[j], entries[j].1));
        assert(attr_parse_ok(raws[j]));
    }
    lemma_bag_raw_bridge(entries, raws, (|a: BindgenAttr| a is Method), "method"@, 0);
    lemma_raw_match_props(raws, "method"@, 0);
    lemma_first_from_exists(entries, (|a: BindgenAttr| a is Method), 0);
    if first_match(entries, (|a: BindgenAttr| a is Method)) is Some {
        let i = first_match(entries, (|a: BindgenAttr| a is Method))->0;
        lemma_first_from_in_range_pub(entries, (|a: BindgenAttr| a is Method));
        assert(parsed_attr_matches(raws[i], entries[i].1));
    }
}

/// In a fully parsed bag, the `static_method_of` attribute stands exactly where the raw
/// keyword `static_method_of` stands.
pub proof fn lemma_bridge_static_method_of(entries: Seq<(bool, BindgenAttr)>, raws: Seq<RawAttr>)
    requires
        bag_matches_raws(entries, raws),
        all_attrs_parse(raws),
    ensures
        first_match(entries, (|a: BindgenAttr| a is StaticMethodOf)) == raw_match(raws, "static_method_of"@),
        (first_match(entries, (|a: BindgenAttr| a is StaticMethodOf)) is Some) <==> raw_has(
            raws,
            "static_method_of"@,
        ),
        first_match(entries, (|a: BindgenAttr| a is StaticMethodOf)) matches Some(i)
            ==> entries[i].1->StaticMethodOf_1@ == sv_text(raws[i].value),
{
    lemma_keywords_distinct();
    assert forall|j: int|
        0 <= j < raws.len() implies (((#[trigger] entries[j]).1 is StaticMethodOf) <==> raws[j].keyword@
        == "static_method_of"@) by {
        assert(parsed_attr_matches(raws[j], entries[j].1));
        assert(attr_parse_ok(raws[j]));
    }
    lemma_bag_raw_bridge(entries, raws, (|a: BindgenAttr| a is StaticMethodOf), "static_method_of"@, 0);
    lemma_raw_match_props(raws, "static_method_of"@, 0);
    lemma_first_from_exists(entries, (|a: BindgenAttr| a is StaticMethodOf), 0);
    if first_match(entries, (|a: BindgenAttr| a is StaticMethodOf)) is Some {
        let i = first_match(entries, (|a: BindgenAttr| a is StaticMethodOf))->0;
        lemma_first_from_in_range_pub(entries, (|a: BindgenAttr| a is StaticMethodOf));
        assert(parsed_attr_matches(raws[i], entries[i].1));
    }
}

/// In a fully parsed bag, the `js_namespace` attribute stands exactly where the raw
/// keyword `js_namespace` stands.
pub proof fn lemma_bridge_js_namespace(entries: Seq<(bool, BindgenAttr)>, raws: Seq<RawAttr>)
    requires
        bag_matches_raws(entries, raws),
        all_attrs_parse(raws),
    ensures
        first_match(entries, (|a: BindgenAttr| a is JsNamespace)) == raw_match(raws, "js_namespace"@),
        (first_match(entries, (|a: BindgenAttr| a is JsNamespace)) is Some) <==> raw_has(
            raws,
            "js_namespace"@,
        ),
        first_match(entries, (|a: BindgenAttr| a is JsNamespace)) matches Some(i)
            ==> entries[i].1->JsNamespace_1@ == sv_text(raws[i].value),
{
    lemma_keywords_distinct();
    assert forall|j: int|
        0 <= j < raws.len() implies (((#[trigger] entries[j]).1 is JsNamespace) <==> raws[j].keyword@
        == "js_namespace"@) by {
        assert(parsed_attr_matches(raws[j], entries[j].1));
        assert(attr_parse_ok(raws[j]));
    }
    lemma_bag_raw_bridge(entries, raws, (|a: BindgenAttr| a is JsNamespace), "js_namespace"@, 0);
    lemma_raw_match_props(raws, "js_namespace"@, 0);
    lemma_first_from_exists(entries, (|a: BindgenAttr| a is JsNamespace), 0);
    if first_match(entries, (|a: BindgenAttr| a is JsNamespace)) is Some {
        let i = first_match(entries, (|a: BindgenAttr| a is JsNamespace))->0;
        lemma_first_from_in_range_pub(entries, (|a: BindgenAttr| a is JsNamespace));
        assert(parsed_attr_matches(raws[i], entries[i].1));
    }
}

/// In a fully parsed bag, the `module` attribute stands exactly where the raw
/// keyword `module` stands.
pub proof fn lemma_bridge_module(entries: Seq<(bool, BindgenAttr)>, raws: Seq<RawAttr>)
    requires
        bag_matches_raws(entries, raws),
        all_attrs_parse(raws),
    ensures
        first_match(entries, (|a: BindgenAttr| a is Module)) == raw_match(raws, "module"@),
        (first_match(entries, (|a: BindgenAttr| a is Module)) is Some) <==> raw_has(
            raws,
            "module"@,
        ),
        first_match(entries, (|a: BindgenAttr| a is Module)) matches Some(i)
            ==> entries[i].1->Module_1@ == sv_text(raws[i].value) && entries[i].1->Module_2
            == sv_span(raws[i].value),
{
    lemma_keywords_distinct();
    assert forall|j: int|
        0 <= j < raws.len() implies (((#[trigger] entries[j]).1 is Module) <==> raws[j].keyword@
        == "module"@) by {
        assert(parsed_attr_matches(raws[j], entries[j].1));
        assert(attr_parse_ok(raws[j]));
    }
    lemma_bag_raw_bridge(entries, raws, (|a: BindgenAttr| a is Module), "module"@, 0);
    lemma_raw_match_props(raws, "module"@, 0);
    lemma_first_from_exists(entries, (|a: BindgenAttr| a is Module), 0);
    if first_match(entries, (|a: BindgenAttr| a is Module)) is Some {
        let i = first_match(entries, (|a: BindgenAttr| a is Module))->0;
        lemma_first_from_in_range_pub(entries, (|a: BindgenAttr| a is Module));
        assert(parsed_attr_matches(raws[i], entries[i].1));
    }
}

/// In a fully parsed bag, the `raw_module` attribute stands exactly where the raw
/// keyword `raw_module` stands.
pub proof fn lemma_bridge_raw_module(entries: Seq<(bool, BindgenAttr)>, raws: Seq<RawAttr>)
    requires
        bag_matches_raws(entries, raws),
        all_attrs_parse(raws),
    ensures
        first_match(entries, (|a: BindgenAttr| a is RawModule)) == raw_match(raws, "raw_module"@),
        (first_match(entries, (|a: BindgenAttr| a is RawModule)) is Some) <==> raw_has(
            raws,
            "raw_module"@,
        ),
        first_match(entries, (|a: BindgenAttr| a is RawModule)) matches Some(i)
            ==> entries[i].1->RawModule_1@ == sv_text(raws[i].value) && entries[i].1->RawModule_2
            == sv_span(raws[i].value),
{
    lemma_keywords_distinct();
    assert forall|j: int|
        0 <= j < raws.len() implies (((#[trigger] entries[j]).1 is RawModule) <==> raws[j].keyword@
        == "raw_module"@) by {
        assert(parsed_attr_matches(raws[j], entries[j].1));
        assert(attr_parse_ok(raws[j]));
    }
    lemma_bag_raw_bridge(entries, raws, (|a: BindgenAttr| a is RawModule), "raw_module"@, 0);
    lemma_raw_match_props(raws, "raw_module"@, 0);
    lemma_first_from_exists(entries, (|a: BindgenAttr| a is RawModule), 0);
    if first_match(entries, (|a: BindgenAttr| a is RawModule)) is Some {
        let i = first_match(entries, (|a: BindgenAttr| a is RawModule))->0;
        lemma_first_from_in_range_pub(entries, (|a: BindgenAttr| a is RawModule));
        assert(parsed_attr_matches(raws[i], entries[i].1));
    }
}

/// In a fully parsed bag, the `inline_js` attribute stands exactly where the raw
/// keyword `inline_js` stands.
pub proof fn lemma_bridge_inline_js(entries: Seq<(bool, BindgenAttr)>, raws: Seq<RawAttr>)
    requires
        bag_matches_raws(entries, raws),
        all_attrs_parse(raws),
    ensures
        first_match(entries, (|a: BindgenAttr| a is InlineJs)) == raw_match(raws, "inline_js"@),
        (first_match(entries, (|a: BindgenAttr| a is InlineJs)) is Some) <==> raw_has(
            raws,
            "inline_js"@,
        ),
        first_match(entries, (|a: BindgenAttr| a is InlineJs)) matches Some(i)
            ==> entries[i].1->InlineJs_1@ == sv_text(raws[i].value) && entries[i].1->InlineJs_2
            == sv_span(raws[i].value),
{
    lemma_keywords_distinct();
    assert forall|j: int|
        0 <= j < raws.len() implies (((#[trigger] entries[j]).1 is InlineJs) <==> raws[j].keyword@
        == "inline_js"@) by {
        assert(parsed_attr_matches(raws[j], entries[j].1));
        assert(attr_parse_ok(raws[j]));
    }
    lemma_bag_raw_bridge(entries, raws, (|a: BindgenAttr| a is InlineJs), "inline_js"@, 0);
    lemma_raw_match_props(raws, "inline_js"@, 0);
    lemma_first_from_exists(entries, (|a: BindgenAttr| a is InlineJs), 0);
    if first_match(entries, (|a: BindgenAttr| a is InlineJs)) is Some {
        let i = first_match(entries, (|a: BindgenAttr| a is InlineJs))->0;
        lemma_first_from_in_range_pub(entries, (|a: BindgenAttr| a is InlineJs));
        assert(parsed_attr_matches(raws[i], entries[i].1));
    }
}

/// In a fully parsed bag, the `structural` attribute stands exactly where the raw
/// keyword `structural` stands.
pub proof fn lemma_bridge_structural(entries: Seq<(bool, BindgenAttr)>, raws: Seq<RawAttr>)
    requires
        bag_matches_raws(entries, raws),
        all_attrs_parse(raws),
    ensures
        first_match(entries, (|a: BindgenAttr| a is StructuralDispatch)) == raw_match(raws, "structural"@),
        (first_match(entries, (|a: BindgenAttr| a is StructuralDispatch)) is Some) <==> raw_has(
            raws,
            "structural"@,
        ),
{
    lemma_keywords_distinct();
    assert forall|j: int|
        0 <= j < raws.len() implies (((#[trigger] entries[j]).1 is StructuralDispatch) <==> raws[j].keyword@
        == "structural"@) by {
        assert(parsed_attr_matches(raws[j], entries[j].1));
        assert(attr_parse_ok(raws[j]));
    }
    lemma_bag_raw_bridge(entries, raws, (|a: BindgenAttr| a is StructuralDispatch), "structural"@, 0);
    lemma_raw_match_props(raws, "structural"@, 0);
    lemma_first_from_exists(entries, (|a: BindgenAttr| a is StructuralDispatch), 0);
    if first_match(entries, (|a: BindgenAttr| a is StructuralDispatch)) is Some {
        let i = first_match(entries, (|a: BindgenAttr| a is StructuralDispatch))->0;
        lemma_first_from_in_range_pub(entries, (|a: BindgenAttr| a is StructuralDispatch));
        assert(parsed_attr_matches(raws[i], entries[i].1));
    }
}

/// In a fully parsed bag, the `final` attribute stands exactly where the raw
/// keyword `final` stands.
pub proof fn lemma_bridge_final(entries: Seq<(bool, BindgenAttr)>, raws: Seq<RawAttr>)
    requires
        bag_matches_raws(entries, raws),
        all_attrs_parse(raws),
    ensures
        first_match(entries, (|a: BindgenAttr| a is Final)) == raw_match(raws, "final"@),
        (first_match(entries, (|a: BindgenAttr| a is Final)) is Some) <==> raw_has(
            raws,
            "final"@,
        ),
{
    lemma_keywords_distinct();
    assert forall|j: int|
        0 <= j < raws.len() implies (((#[trigger] entries[j]).1 is Final) <==> raws[j].keyword@
        == "final"@) by {
        assert(parsed_attr_matches(raws[j], entries[j].1));
        assert(attr_parse_ok(raws[j]));
    }
    lemma_bag_raw_bridge(entries, raws, (|a: BindgenAttr| a is Final), "final"@, 0);
    lemma_raw_match_props(raws, "final"@, 0);
    lemma_first_from_exists(entries, (|a: BindgenAttr| a is Final), 0);
    if first_match(entries, (|a: BindgenAttr| a is Final)) is Some {
        let i = first_match(entries, (|a: BindgenAttr| a is Final))->0;
        lemma_first_from_in_range_pub(entries, (|a: BindgenAttr| a is Final));
        assert(parsed_attr_matches(raws[i], entries[i].1));
    }
}

/// In a fully parsed bag, the `variadic` attribute stands exactly where the raw
/// keyword `variadic` stands.
pub proof fn lemma_bridge_variadic(entries: Seq<(bool, BindgenAttr)>, raws: Seq<RawAttr>)
    requires
        bag_matches_raws(entries, raws),
        all_attrs_parse(raws),
    ensures
        first_match(entries, (|a: BindgenAttr| a is Variadic)) == raw_match(raws, "variadic"@),
        (first_match(entries, (|a: BindgenAttr| a is Variadic)) is Some) <==> raw_has(
            raws,
            "variadic"@,
        ),
{
    lemma_keywords_distinct();
    assert forall|j: int|
        0 <= j < raws.len() implies (((#[trigger] entries[j]).1 is Variadic) <==> raws[j].keyword@
        == "variadic"@) by {
        assert(parsed_attr_matches(raws[j], entries[j].1));
        assert(attr_parse_ok(raws[j]));
    }
    lemma_bag_raw_bridge(entries, raws, (|a: BindgenAttr| a is Variadic), "variadic"@, 0);
    lemma_raw_match_props(raws, "variadic"@, 0);
    lemma_first_from_exists(entries, (|a: BindgenAttr| a is Variadic), 0);
    if first_match(entries, (|a: BindgenAttr| a is Variadic)) is Some {
        let i = first_match(entries, (|a: BindgenAttr| a is Variadic))->0;
        lemma_first_from_in_range_pub(entries, (|a: BindgenAttr| a is Variadic));
        assert(parsed_attr_matches(raws[i], entries[i].1));
    }
}

/// In a fully parsed bag, the `typescript_custom_section` attribute stands exactly where the raw
/// keyword `typescript_custom_section` stands.
pub proof fn lemma_bridge_typescript_custom_section(entries: Seq<(bool, BindgenAttr)>, raws: Seq<RawAttr>)
    requires
        bag_matches_raws(entries, raws),
        all_attrs_parse(raws),
    ensures
        first_match(entries, (|a: BindgenAttr| a is TypescriptCustomSection)) == raw_match(raws, "typescript_custom_section"@),
        (first_match(entries, (|a: BindgenAttr| a is TypescriptCustomSection)) is Some) <==> raw_has(
            raws,
            "typescript_custom_section"@,
        ),
{
    lemma_keywords_distinct();
    assert forall|j: int|
        0 <= j < raws.len() implies (((#[trigger] entries[j]).1 is TypescriptCustomSection) <==> raws[j].keyword@
        == "typescript_custom_section"@) by {
        assert(parsed_attr_matches(raws[j], entries[j].1));
        assert(attr_parse_ok(raws[j]));
    }
    lemma_bag_raw_bridge(entries, raws, (|a: BindgenAttr| a is TypescriptCustomSection), "typescript_custom_section"@, 0);
    lemma_raw_match_props(raws, "typescript_custom_section"@, 0);
    lemma_first_from_exists(entries, (|a: BindgenAttr| a is TypescriptCustomSection), 0);
    if first_match(entries, (|a: BindgenAttr| a is TypescriptCustomSection)) is Some {
        let i = first_match(entries, (|a: BindgenAttr| a is TypescriptCustomSection))->0;
        lemma_first_from_in_range_pub(entries, (|a: BindgenAttr| a is TypescriptCustomSection));
        assert(parsed_attr_matches(raws[i], entries[i].1));
    }
}

/// In a fully parsed bag, the `skip` attribute stands exactly where the raw
/// keyword `skip` stands.
pub proof fn lemma_bridge_skip(entries: Seq<(bool, BindgenAttr)>, raws: Seq<RawAttr>)
    requires
        bag_matches_raws(entries, raws),
        all_attrs_parse(raws),
    ensures
        first_match(entries, (|a: BindgenAttr| a is Skip)) == raw_match(raws, "skip"@),
        (first_match(entries, (|a: BindgenAttr| a is Skip)) is Some) <==> raw_has(
            raws,
            "skip"@,
        ),
{
    lemma_keywords_distinct();
    assert forall|j: int|
        0 <= j < raws.len() implies (((#[trigger] entries[j]).1 is Skip) <==> raws[j].keyword@
        == "skip"@) by {
        assert(parsed_attr_matches(raws[j], entries[j].1));
        assert(attr_parse_ok(raws[j]));
    }
    lemma_bag_raw_bridge(entries, raws, (|a: BindgenAttr| a is Skip), "skip"@, 0);
    lemma_raw_match_props(raws, "skip"@, 0);
    lemma_first_from_exists(entries, (|a: BindgenAttr| a is Skip), 0);
    if first_match(entries, (|a: BindgenAttr| a is Skip)) is Some {
        let i = first_match(entries, (|a: BindgenAttr| a is Skip))->0;
        lemma_first_from_in_range_pub(entries, (|a: BindgenAttr| a is Skip));
        assert(parsed_attr_matches(raws[i], entries[i].1));
    }
}

/// In a fully parsed bag, the `readonly` attribute stands exactly where the raw
/// keyword `readonly` stands.
pub proof fn lemma_bridge_readonly(entries: Seq<(bool, BindgenAttr)>, raws: Seq<RawAttr>)
    requires
        bag_matches_raws(entries, raws),
        all_attrs_parse(raws),
    ensures
        first_match(entries, (|a: BindgenAttr| a is Readonly)) == raw_match(raws, "readonly"@),
        (first_match(entries, (|a: BindgenAttr| a is Readonly)) is Some) <==> raw_has(
            raws,
            "readonly"@,
        ),
{
    lemma_keywords_distinct();
    assert forall|j: int|
        0 <= j < raws.len() implies (((#[trigger] entries[j]).1 is Readonly) <==> raws[j].keyword@
        == "readonly"@) by {
        assert(parsed_attr_matches(raws[j], entries[j].1));
        assert(attr_parse_ok(raws[j]));
    }
    lemma_bag_raw_bridge(entries, raws, (|a: BindgenAttr| a is Readonly), "readonly"@, 0);
    lemma_raw_match_props(raws, "readonly"@, 0);
    lemma_first_from_exists(entries, (|a: BindgenAttr| a is Readonly), 0);
    if first_match(entries, (|a: BindgenAttr| a is Readonly)) is Some {
        let i = first_match(entries, (|a: BindgenAttr| a is Readonly))->0;
        lemma_first_from_in_range_pub(entries, (|a: BindgenAttr| a is Readonly));
        assert(parsed_attr_matches(raws[i], entries[i].1));
    }
}

/// `o` with `pre` prepended to its payload.
pub open spec fn opt_prepend(pre: Seq<RawAttr>, o: Option<Seq<RawAttr>>) -> Option<Seq<RawAttr>> {
    match o {
        Some(tail) => Some(pre + tail),
        None => None,
    }
}

impl BindgenAttrs {
    /// Finds, removes and parses the `wasm_bindgen` attributes of a
    /// declaration's attribute list.  Per parenthesised group one inner bag
    /// is created, drained into the result and audited; the returned bag is
    /// the caller's to audit.
    #[verifier::loop_isolation(false)]
    pub fn find(state: &mut AttributeParseState, attrs: &mut Vec<Attribute>) -> (r: Result<
        BindgenAttrs,
        Diagnostic,
    >)
        requires
            old(state).parsed + old(attrs)@.len() < usize::MAX,
            old(state).checks + old(attrs)@.len() <= usize::MAX,
        ensures
            final(state).strict == old(state).strict,
            final(state).parsed >= old(state).parsed,
            final(state).checks >= old(state).checks,
            final(state).parsed <= old(state).parsed + 1 + old(attrs)@.len(),
            final(state).checks <= old(state).checks + old(attrs)@.len(),
            r is Ok ==> final(state).parsed - final(state).checks == old(state).parsed - old(
                state,
            ).checks + 1,
            r is Err ==> final(state).parsed - final(state).checks >= old(state).parsed - old(
                state,
            ).checks + 1,
            r is Ok <==> spec_find_ok(old(attrs)@),
            r is Ok ==> final(attrs)@ == spec_keep_other(old(attrs)@),
            r is Ok ==> (spec_collect_raws(old(attrs)@) matches Some(raws) && bag_matches_raws(
                r->Ok_0.attrs@,
                raws,
            )),
    {
        let mut ret = BindgenAttrs::new(state);
        let orig_len = attrs.len();
        let ghost orig = attrs@;
        let mut keep: Vec<Attribute> = Vec::new();
        let mut k: usize = 0;
        let ghost mut collected: Seq<RawAttr> = Seq::empty();
        let ghost mut gd: int = 0;
        proof {
            assert(orig.skip(0) =~= orig);
            assert(Seq::<RawAttr>::empty() + Seq::<RawAttr>::empty() =~= Seq::<
                RawAttr,
            >::empty());
        }
        while attrs.len() > 0
            invariant
                k <= orig_len,
                orig_len == orig.len(),
                k + attrs@.len() == orig.len(),
                attrs@ =~= orig.skip(k as int),
                0 <= gd <= k,
                state.parsed == old(state).parsed + 1 + gd,
                state.checks == old(state).checks + gd,
                state.strict == old(state).strict,
                spec_keep_other(orig) == keep@ + spec_keep_other(orig.skip(k as int)),
                spec_collect_raws(orig) == opt_prepend(
                    collected,
                    spec_collect_raws(orig.skip(k as int)),
                ),
                all_attrs_parse(collected),
                bag_matches_raws(ret.attrs@, collected),
            decreases attrs@.len(),
        {
            let ghost rest = orig.skip(k as int);
            proof {
                assert(rest[0] == orig[k as int]);
                assert(rest.drop_first() =~= orig.skip(k as int + 1));
            }
            let a = attrs.remove(0);
            if attr_is_wb(&a) {
                match a.body {
                    AttrBody::EmptyBody => {},
                    AttrBody::OtherBody => {
                        return Err(
                            Diagnostic::span_error(a.span, "malformed #[wasm_bindgen] attribute"),
                        );
                    },
                    AttrBody::GroupBody(list, extra) => {
                        if extra {
                            return Err(
                                Diagnostic::span_error(
                                    a.span,
                                    "malformed #[wasm_bindgen] attribute",
                                ),
                            );
                        }
                        if !list.paren {
                            return Err(
                                Diagnostic::span_error(
                                    a.span,
                                    "malformed #[wasm_bindgen] attribute",
                                ),
                            );
                        }
                        let ghost raws_here = list.attrs@;
                        let mut inner = match Self::parse(state, list) {
                            Ok(b) => b,
                            Err(d) => {
                                proof {
                                    let bad = choose|i: int|
                                        0 <= i < raws_here.len() && !attr_parse_ok(
                                            #[trigger] raws_here[i],
                                        );
                                    if spec_collect_raws(orig) is Some {
                                        let tot = spec_collect_raws(orig)->0;
                                        let remv = spec_collect_raws(rest)->0;
                                        let tailv = spec_collect_raws(rest.drop_first())->0;
                                        assert(remv == raws_here + tailv);
                                        assert(tot == collected + remv);
                                        assert(tot[collected.len() + bad] == raws_here[bad]);
                                        assert(!attr_parse_ok(tot[collected.len() + bad]));
                                    }
                                }
                                return Err(d);
                            },
                        };
                        let ghost pre_entries = ret.attrs@;
                        ret.attrs.append(&mut inner.attrs);
                        match inner.check_used(state) {
                            Ok(u) => {},
                            Err(d) => {
                                proof {
                                    assert(false);
                                }
                                return Err(d);
                            },
                        }
                        proof {
                            let newcol = collected + raws_here;
                            assert(all_attrs_parse(newcol)) by {
                                assert forall|i: int|
                                    0 <= i < newcol.len() implies attr_parse_ok(
                                    #[trigger] newcol[i],
                                ) by {
                                    if i < collected.len() {
                                        assert(newcol[i] == collected[i]);
                                    } else {
                                        assert(newcol[i] == raws_here[i - collected.len()]);
                                    }
                                }
                            };
                            assert(bag_matches_raws(ret.attrs@, newcol)) by {
                                assert forall|i: int|
                                    0 <= i < newcol.len() implies (#[trigger] ret.attrs@[i]).0
                                    == false && parsed_attr_matches(
                                    newcol[i],
                                    ret.attrs@[i].1,
                                ) by {
                                    if i < collected.len() {
                                        assert(ret.attrs@[i] == pre_entries[i]);
                                        assert(newcol[i] == collected[i]);
                                    } else {
                                        assert(newcol[i] == raws_here[i - collected.len()]);
                                    }
                                }
                            };
                            collected = newcol;
                            gd = gd + 1;
                        }
                    },
                }
            } else {
                keep.push(a);
                proof {
                    assert(keep@.drop_last() + spec_keep_other(rest) =~= keep@.drop_last()
                        + (seq![orig[k as int]] + spec_keep_other(rest.drop_first())));
                    assert(keep@ + spec_keep_other(rest.drop_first()) =~= keep@.drop_last() + (
                    seq![orig[k as int]] + spec_keep_other(rest.drop_first())));
                }
            }
            k = k + 1;
        }
        proof {
            assert(orig.skip(k as int).len() == 0);
            assert(spec_keep_other(orig.skip(k as int)) =~= Seq::<Attribute>::empty());
            assert(spec_keep_other(orig) =~= keep@);
            assert(collected + Seq::<RawAttr>::empty() =~= collected);
        }
        *attrs = keep;
        Ok(ret)
    }
}


/// The twenty-five keywords of the vocabulary are pairwise different.
pub proof fn lemma_keywords_distinct()
    ensures
        "catch"@ != "constructor"@,
        "catch"@ != "method"@,
        "catch"@ != "static_method_of"@,
        "catch"@ != "js_namespace"@,
        "catch"@ != "module"@,
        "catch"@ != "raw_module"@,
        "catch"@ != "inline_js"@,
        "catch"@ != "getter"@,
        "catch"@ != "setter"@,
        "catch"@ != "indexing_getter"@,
        "catch"@ != "indexing_setter"@,
        "catch"@ != "indexing_deleter"@,
        "catch"@ != "structural"@,
        "catch"@ != "final"@,
        "catch"@ != "readonly"@,
        "catch"@ != "js_name"@,
        "catch"@ != "js_class"@,
        "catch"@ != "is_type_of"@,
        "catch"@ != "extends"@,
        "catch"@ != "vendor_prefix"@,
        "catch"@ != "variadic"@,
        "catch"@ != "typescript_custom_section"@,
        "catch"@ != "start"@,
        "catch"@ != "skip"@,
        "constructor"@ != "method"@,
        "constructor"@ != "static_method_of"@,
        "constructor"@ != "js_namespace"@,
        "constructor"@ != "module"@,
        "constructor"@ != "raw_module"@,
        "constructor"@ != "inline_js"@,
        "constructor"@ != "getter"@,
        "constructor"@ != "setter"@,
        "constructor"@ != "indexing_getter"@,
        "constructor"@ != "indexing_setter"@,
        "constructor"@ != "indexing_deleter"@,
        "constructor"@ != "structural"@,
        "constructor"@ != "final"@,
        "constructor"@ != "readonly"@,
        "constructor"@ != "js_name"@,
        "constructor"@ != "js_class"@,
        "constructor"@ != "is_type_of"@,
        "constructor"@ != "extends"@,
        "constructor"@ != "vendor_prefix"@,
        "constructor"@ != "variadic"@,
        "constructor"@ != "typescript_custom_section"@,
        "constructor"@ != "start"@,
        "constructor"@ != "skip"@,
        "method"@ != "static_method_of"@,
        "method"@ != "js_namespace"@,
        "method"@ != "module"@,
        "method"@ != "raw_module"@,
        "method"@ != "inline_js"@,
        "method"@ != "getter"@,
        "method"@ != "setter"@,
        "method"@ != "indexing_getter"@,
        "method"@ != "indexing_setter"@,
        "method"@ != "indexing_deleter"@,
        "method"@ != "structural"@,
        "method"@ != "final"@,
        "method"@ != "readonly"@,
        "method"@ != "js_name"@,
        "method"@ != "js_class"@,
        "method"@ != "is_type_of"@,
        "method"@ != "extends"@,
        "method"@ != "vendor_prefix"@,
        "method"@ != "variadic"@,
        "method"@ != "typescript_custom_section"@,
        "method"@ != "start"@,
        "method"@ != "skip"@,
        "static_method_of"@ != "js_namespace"@,
        "static_method_of"@ != "module"@,
        "static_method_of"@ != "raw_module"@,
        "static_method_of"@ != "inline_js"@,
        "static_method_of"@ != "getter"@,
        "static_method_of"@ != "setter"@,
        "static_method_of"@ != "indexing_getter"@,
        "static_method_of"@ != "indexing_setter"@,
        "static_method_of"@ != "indexing_deleter"@,
        "static_method_of"@ != "structural"@,
        "static_method_of"@ != "final"@,
        "static_method_of"@ != "readonly"@,
        "static_method_of"@ != "js_name"@,
        "static_method_of"@ != "js_class"@,
        "static_method_of"@ != "is_type_of"@,
        "static_method_of"@ != "extends"@,
        "static_method_of"@ != "vendor_prefix"@,
        "static_method_of"@ != "variadic"@,
        "static_method_of"@ != "typescript_custom_section"@,
        "static_method_of"@ != "start"@,
        "static_method_of"@ != "skip"@,
        "js_namespace"@ != "module"@,
        "js_namespace"@ != "raw_module"@,
        "js_namespace"@ != "inline_js"@,
        "js_namespace"@ != "getter"@,
        "js_namespace"@ != "setter"@,
        "js_namespace"@ != "indexing_getter"@,
        "js_namespace"@ != "indexing_setter"@,
        "js_namespace"@ != "indexing_deleter"@,
        "js_namespace"@ != "structural"@,
        "js_namespace"@ != "final"@,
        "js_namespace"@ != "readonly"@,
        "js_namespace"@ != "js_name"@,
        "js_namespace"@ != "js_class"@,
        "js_namespace"@ != "is_type_of"@,
        "js_namespace"@ != "extends"@,
        "js_namespace"@ != "vendor_prefix"@,
        "js_namespace"@ != "variadic"@,
        "js_namespace"@ != "typescript_custom_section"@,
        "js_namespace"@ != "start"@,
        "js_namespace"@ != "skip"@,
        "module"@ != "raw_module"@,
        "module"@ != "inline_js"@,
        "module"@ != "getter"@,
        "module"@ != "setter"@,
        "module"@ != "indexing_getter"@,
        "module"@ != "indexing_setter"@,
        "module"@ != "indexing_deleter"@,
        "module"@ != "structural"@,
        "module"@ != "final"@,
        "module"@ != "readonly"@,
        "module"@ != "js_name"@,
        "module"@ != "js_class"@,
        "module"@ != "is_type_of"@,
        "module"@ != "extends"@,
        "module"@ != "vendor_prefix"@,
        "module"@ != "variadic"@,
        "module"@ != "typescript_custom_section"@,
        "module"@ != "start"@,
        "module"@ != "skip"@,
        "raw_module"@ != "inline_js"@,
        "raw_module"@ != "getter"@,
        "raw_module"@ != "setter"@,
        "raw_module"@ != "indexing_getter"@,
        "raw_module"@ != "indexing_setter"@,
        "raw_module"@ != "indexing_deleter"@,
        "raw_module"@ != "structural"@,
        "raw_module"@ != "final"@,
        "raw_module"@ != "readonly"@,
        "raw_module"@ != "js_name"@,
        "raw_module"@ != "js_class"@,
        "raw_module"@ != "is_type_of"@,
        "raw_module"@ != "extends"@,
        "raw_module"@ != "vendor_prefix"@,
        "raw_module"@ != "variadic"@,
        "raw_module"@ != "typescript_custom_section"@,
        "raw_module"@ != "start"@,
        "raw_module"@ != "skip"@,
        "inline_js"@ != "getter"@,
        "inline_js"@ != "setter"@,
        "inline_js"@ != "indexing_getter"@,
        "inline_js"@ != "indexing_setter"@,
        "inline_js"@ != "indexing_deleter"@,
        "inline_js"@ != "structural"@,
        "inline_js"@ != "final"@,
        "inline_js"@ != "readonly"@,
        "inline_js"@ != "js_name"@,
        "inline_js"@ != "js_class"@,
        "inline_js"@ != "is_type_of"@,
        "inline_js"@ != "extends"@,
        "inline_js"@ != "vendor_prefix"@,
        "inline_js"@ != "variadic"@,
        "inline_js"@ != "typescript_custom_section"@,
        "inline_js"@ != "start"@,
        "inline_js"@ != "skip"@,
        "getter"@ != "setter"@,
        "getter"@ != "indexing_getter"@,
        "getter"@ != "indexing_setter"@,
        "getter"@ != "indexing_deleter"@,
        "getter"@ != "structural"@,
        "getter"@ != "final"@,
        "getter"@ != "readonly"@,
        "getter"@ != "js_name"@,
        "getter"@ != "js_class"@,
        "getter"@ != "is_type_of"@,
        "getter"@ != "extends"@,
        "getter"@ != "vendor_prefix"@,
        "getter"@ != "variadic"@,
        "getter"@ != "typescript_custom_section"@,
        "getter"@ != "start"@,
        "getter"@ != "skip"@,
        "setter"@ != "indexing_getter"@,
        "setter"@ != "indexing_setter"@,
        "setter"@ != "indexing_deleter"@,
        "setter"@ != "structural"@,
        "setter"@ != "final"@,
        "setter"@ != "readonly"@,
        "setter"@ != "js_name"@,
        "setter"@ != "js_class"@,
        "setter"@ != "is_type_of"@,
        "setter"@ != "extends"@,
        "setter"@ != "vendor_prefix"@,
        "setter"@ != "variadic"@,
        "setter"@ != "typescript_custom_section"@,
        "setter"@ != "start"@,
        "setter"@ != "skip"@,
        "indexing_getter"@ != "indexing_setter"@,
        "indexing_getter"@ != "indexing_deleter"@,
        "indexing_getter"@ != "structural"@,
        "indexing_getter"@ != "final"@,
        "indexing_getter"@ != "readonly"@,
        "indexing_getter"@ != "js_name"@,
        "indexing_getter"@ != "js_class"@,
        "indexing_getter"@ != "is_type_of"@,
        "indexing_getter"@ != "extends"@,
        "indexing_getter"@ != "vendor_prefix"@,
        "indexing_getter"@ != "variadic"@,
        "indexing_getter"@ != "typescript_custom_section"@,
        "indexing_getter"@ != "start"@,
        "indexing_getter"@ != "skip"@,
        "indexing_setter"@ != "indexing_deleter"@,
        "indexing_setter"@ != "structural"@,
        "indexing_setter"@ != "final"@,
        "indexing_setter"@ != "readonly"@,
        "indexing_setter"@ != "js_name"@,
        "indexing_setter"@ != "js_class"@,
        "indexing_setter"@ != "is_type_of"@,
        "indexing_setter"@ != "extends"@,
        "indexing_setter"@ != "vendor_prefix"@,
        "indexing_setter"@ != "variadic"@,
        "indexing_setter"@ != "typescript_custom_section"@,
        "indexing_setter"@ != "start"@,
        "indexing_setter"@ != "skip"@,
        "indexing_deleter"@ != "structural"@,
        "indexing_deleter"@ != "final"@,
        "indexing_deleter"@ != "readonly"@,
        "indexing_deleter"@ != "js_name"@,
        "indexing_deleter"@ != "js_class"@,
        "indexing_deleter"@ != "is_type_of"@,
        "indexing_deleter"@ != "extends"@,
        "indexing_deleter"@ != "vendor_prefix"@,
        "indexing_deleter"@ != "variadic"@,
        "indexing_deleter"@ != "typescript_custom_section"@,
        "indexing_deleter"@ != "start"@,
        "indexing_deleter"@ != "skip"@,
        "structural"@ != "final"@,
        "structural"@ != "readonly"@,
        "structural"@ != "js_name"@,
        "structural"@ != "js_class"@,
        "structural"@ != "is_type_of"@,
        "structural"@ != "extends"@,
        "structural"@ != "vendor_prefix"@,
        "structural"@ != "variadic"@,
        "structural"@ != "typescript_custom_section"@,
        "structural"@ != "start"@,
        "structural"@ != "skip"@,
        "final"@ != "readonly"@,
        "final"@ != "js_name"@,
        "final"@ != "js_class"@,
        "final"@ != "is_type_of"@,
        "final"@ != "extends"@,
        "final"@ != "vendor_prefix"@,
        "final"@ != "variadic"@,
        "final"@ != "typescript_custom_section"@,
        "final"@ != "start"@,
        "final"@ != "skip"@,
        "readonly"@ != "js_name"@,
        "readonly"@ != "js_class"@,
        "readonly"@ != "is_type_of"@,
        "readonly"@ != "extends"@,
        "readonly"@ != "vendor_prefix"@,
        "readonly"@ != "variadic"@,
        "readonly"@ != "typescript_custom_section"@,
        "readonly"@ != "start"@,
        "readonly"@ != "skip"@,
        "js_name"@ != "js_class"@,
        "js_name"@ != "is_type_of"@,
        "js_name"@ != "extends"@,
        "js_name"@ != "vendor_prefix"@,
        "js_name"@ != "variadic"@,
        "js_name"@ != "typescript_custom_section"@,
        "js_name"@ != "start"@,
        "js_name"@ != "skip"@,
        "js_class"@ != "is_type_of"@,
        "js_class"@ != "extends"@,
        "js_class"@ != "vendor_prefix"@,
        "js_class"@ != "variadic"@,
        "js_class"@ != "typescript_custom_section"@,
        "js_class"@ != "start"@,
        "js_class"@ != "skip"@,
        "is_type_of"@ != "extends"@,
        "is_type_of"@ != "vendor_prefix"@,
        "is_type_of"@ != "variadic"@,
        "is_type_of"@ != "typescript_custom_section"@,
        "is_type_of"@ != "start"@,
        "is_type_of"@ != "skip"@,
        "extends"@ != "vendor_prefix"@,
        "extends"@ != "variadic"@,
        "extends"@ != "typescript_custom_section"@,
        "extends"@ != "start"@,
        "extends"@ != "skip"@,
        "vendor_prefix"@ != "variadic"@,
        "vendor_prefix"@ != "typescript_custom_section"@,
        "vendor_prefix"@ != "start"@,
        "vendor_prefix"@ != "skip"@,
        "variadic"@ != "typescript_custom_section"@,
        "variadic"@ != "start"@,
        "variadic"@ != "skip"@,
        "typescript_custom_section"@ != "start"@,
        "typescript_custom_section"@ != "skip"@,
        "start"@ != "skip"@,
{
    reveal_strlit("catch");
    reveal_strlit("constructor");
    reveal_strlit("method");
    reveal_strlit("static_method_of");
    reveal_strlit("js_namespace");
    reveal_strlit("module");
    reveal_strlit("raw_module");
    reveal_strlit("inline_js");
    reveal_strlit("getter");
    reveal_strlit("setter");
    reveal_strlit("indexing_getter");
    reveal_strlit("indexing_setter");
    reveal_strlit("indexing_deleter");
    reveal_strlit("structural");
    reveal_strlit("final");
    reveal_strlit("readonly");
    reveal_strlit("js_name");
    reveal_strlit("js_class");
    reveal_strlit("is_type_of");
    reveal_strlit("extends");
    reveal_strlit("vendor_prefix");
    reveal_strlit("variadic");
    reveal_strlit("typescript_custom_section");
    reveal_strlit("start");
    reveal_strlit("skip");
    assert("catch"@.len() == 5);
    assert("constructor"@.len() == 11);
    assert("method"@.len() == 6);
    assert("static_method_of"@.len() == 16);
    assert("js_namespace"@.len() == 12);
    assert("module"@.len() == 6);
    assert("raw_module"@.len() == 10);
    assert("inline_js"@.len() == 9);
    assert("getter"@.len() == 6);
    assert("setter"@.len() == 6);
    assert("indexing_getter"@.len() == 15);
    assert("indexing_setter"@.len() == 15);
    assert("indexing_deleter"@.len() == 16);
    assert("structural"@.len() == 10);
    assert("final"@.len() == 5);
    assert("readonly"@.len() == 8);
    assert("js_name"@.len() == 7);
    assert("js_class"@.len() == 8);
    assert("is_type_of"@.len() == 10);
    assert("extends"@.len() == 7);
    assert("vendor_prefix"@.len() == 13);
    assert("variadic"@.len() == 8);
    assert("typescript_custom_section"@.len() == 25);
    assert("start"@.len() == 5);
    assert("skip"@.len() == 4);
    assert("catch"@[0] != "final"@[0]);
    assert("catch"@[0] != "start"@[0]);
    assert("method"@[1] != "module"@[1]);
    assert("method"@[0] != "getter"@[0]);
    assert("method"@[0] != "setter"@[0]);
    assert("static_method_of"@[0] != "indexing_deleter"@[0]);
    assert("module"@[0] != "getter"@[0]);
    assert("module"@[0] != "setter"@[0]);
    assert("raw_module"@[0] != "structural"@[0]);
    assert("raw_module"@[0] != "is_type_of"@[0]);
    assert("getter"@[0] != "setter"@[0]);
    assert("indexing_getter"@[9] != "indexing_setter"@[9]);
    assert("structural"@[0] != "is_type_of"@[0]);
    assert("final"@[0] != "start"@[0]);
    assert("readonly"@[0] != "js_class"@[0]);
    assert("readonly"@[0] != "variadic"@[0]);
    assert("js_name"@[0] != "extends"@[0]);
    assert("js_class"@[0] != "variadic"@[0]);
}







/// The `extends` payloads of the bag, in order.
pub open spec fn extends_of(entries: Seq<(bool, BindgenAttr)>) -> Seq<Path>
    decreases entries.len(),
{
    if entries.len() == 0 {
        Seq::empty()
    } else if entries.last().1 is Extends {
        extends_of(entries.drop_last()).push(entries.last().1->Extends_1)
    } else {
        extends_of(entries.drop_last())
    }
}

/// The `vendor_prefix` payloads of the bag, in order.
pub open spec fn vendor_prefixes_of(entries: Seq<(bool, BindgenAttr)>) -> Seq<String>
    decreases entries.len(),
{
    if entries.len() == 0 {
        Seq::empty()
    } else if entries.last().1 is VendorPrefix {
        vendor_prefixes_of(entries.drop_last()).push(entries.last().1->VendorPrefix_1)
    } else {
        vendor_prefixes_of(entries.drop_last())
    }
}

/// Pointwise structural equivalence of path lists.
pub open spec fn paths_eq(a: Seq<Path>, b: Seq<Path>) -> bool {
    a.len() == b.len() && forall|i: int| 0 <= i < a.len() ==> crate::ast::path_eq(#[trigger] a[i], b[i])
}

impl BindgenAttrs {
    /// Collects every `extends` path and every `vendor_prefix` identifier of
    /// the bag, in order, marking each one consumed.
    #[verifier::loop_isolation(false)]
    pub fn collect_extends_and_prefixes(&mut self) -> (r: (Vec<Path>, Vec<String>))
        ensures
            final(self).attrs@.len() == old(self).attrs@.len(),
            forall|i: int|
                0 <= i < old(self).attrs@.len() ==> (#[trigger] final(self).attrs@[i]).1 == old(
                    self,
                ).attrs@[i].1 && final(self).attrs@[i].0 == (old(self).attrs@[i].0 || old(
                    self,
                ).attrs@[i].1 is Extends || old(self).attrs@[i].1 is VendorPrefix),
            paths_eq(r.0@, extends_of(old(self).attrs@)),
            r.1@ == vendor_prefixes_of(old(self).attrs@),
    {
        let mut ex: Vec<Path> = Vec::new();
        let mut vp: Vec<String> = Vec::new();
        let mut i: usize = 0;
        proof {
            assert(old(self).attrs@.subrange(0, 0) =~= Seq::<(bool, BindgenAttr)>::empty());
        }
        while i < self.attrs.len()
            invariant
                0 <= i <= old(self).attrs@.len(),
                self.attrs@.len() == old(self).attrs@.len(),
                forall|j: int|
                    0 <= j < old(self).attrs@.len() ==> (#[trigger] self.attrs@[j]).1 == old(
                        self,
                    ).attrs@[j].1,
                forall|j: int|
                    i <= j < old(self).attrs@.len() ==> (#[trigger] self.attrs@[j]).0 == old(
                        self,
                    ).attrs@[j].0,
                forall|j: int|
                    0 <= j < i ==> (#[trigger] self.attrs@[j]).0 == (old(self).attrs@[j].0 || old(
                        self,
                    ).attrs@[j].1 is Extends || old(self).attrs@[j].1 is VendorPrefix),
                paths_eq(ex@, extends_of(old(self).attrs@.subrange(0, i as int))),
                vp@ == vendor_prefixes_of(old(self).attrs@.subrange(0, i as int)),
            decreases self.attrs@.len() - i,
        {
            let ghost pre = old(self).attrs@.subrange(0, i as int);
            proof {
                assert(old(self).attrs@.subrange(0, i as int + 1).drop_last() =~= pre);
                assert(old(self).attrs@.subrange(0, i as int + 1).last() == old(self).attrs@[
                    i as int
                ]);
            }
            let is_target = match &self.attrs[i].1 {
                BindgenAttr::Extends(sp, p) => true,
                BindgenAttr::VendorPrefix(sp, s) => true,
                _ => false,
            };
            if is_target {
                match &self.attrs[i].1 {
                    BindgenAttr::Extends(sp, p) => {
                        ex.push(p.clone());
                        proof {
                            assert(ex@.drop_last() =~= ex@.subrange(0, ex@.len() - 1));
                        }
                    },
                    BindgenAttr::VendorPrefix(sp, s) => {
                        vp.push(s.clone());
                    },
                    _ => {},
                }
                self.mark_used(i);
            }
            i = i + 1;
        }
        proof {
            assert(old(self).attrs@.subrange(0, old(self).attrs@.len() as int) =~= old(
                self,
            ).attrs@);
        }
        (ex, vp)
    }
}

} // verus!
