//! The shared abstract syntax tree: source positions, diagnostics, a value
//! model of source types and attributes, and the interop descriptions that
//! the collector produces and the adapter builder consumes.

use vstd::prelude::*;
use vstd::string::StringExecFns;

verus! {

/// A source position: a half-open byte range into the compilation unit.
#[derive(Clone, Copy, Debug, PartialEq, Eq, Structural)]
pub struct Span {
    pub lo: usize,
    pub hi: usize,
}

/// One error message anchored at a source position.
#[derive(Debug, PartialEq, Eq)]
pub struct SpanMsg {
    pub span: Span,
    pub msg: String,
}

impl Clone for SpanMsg {
    fn clone(&self) -> (res: Self)
        ensures
            res == *self,
    {
        SpanMsg { span: self.span, msg: self.msg.clone() }
    }
}

/// A batch of error messages; every failure of the collector carries one.
#[derive(Debug, PartialEq, Eq)]
pub struct Diagnostic {
    pub errors: Vec<SpanMsg>,
}

/// All messages of a sequence of diagnostics, in order.
pub open spec fn all_errors(v: Seq<Diagnostic>) -> Seq<SpanMsg>
    decreases v.len(),
{
    if v.len() == 0 {
        Seq::empty()
    } else {
        all_errors(v.drop_last()) + v.last().errors@
    }
}

impl Diagnostic {
    /// A single error at one position.
    pub fn span_error(span: Span, msg: &str) -> (d: Diagnostic)
        ensures
            d.errors@.len() == 1,
            d.errors@[0].span == span,
            d.errors@[0].msg@ == msg@,
    {
        let mut errors: Vec<SpanMsg> = Vec::new();
        errors.push(SpanMsg { span, msg: String::from_str(msg) });
        Diagnostic { errors }
    }

    /// Folds a batch of diagnostics: success exactly when the batch is empty.
    pub fn from_vec(v: Vec<Diagnostic>) -> (r: Result<(), Diagnostic>)
        ensures
            r is Ok <==> v@.len() == 0,
            r is Err ==> r->Err_0.errors@ == all_errors(v@),
    {
        if v.len() == 0 {
            return Ok(());
        }
        let mut errors: Vec<SpanMsg> = Vec::new();
        let mut i: usize = 0;
        proof {
            assert(v@.subrange(0, 0) =~= Seq::<Diagnostic>::empty());
        }
        while i < v.len()
            invariant
                0 <= i <= v@.len(),
                errors@ == all_errors(v@.subrange(0, i as int)),
            decreases v@.len() - i,
        {
            let mut part = v[i].errors.clone();
            proof {
                assert forall|k: int| 0 <= k < part@.len() implies part@[k] == v@[i as int].errors@[k] by {
                    assert(cloned::<SpanMsg>(v[i as int].errors[k], part[k]));
                }
                assert(part@ =~= v@[i as int].errors@);
            }
            errors.append(&mut part);
            proof {
                assert(v@.subrange(0, i as int + 1).drop_last() =~= v@.subrange(0, i as int));
                assert(v@.subrange(0, i as int + 1).last() == v@[i as int]);
            }
            i = i + 1;
        }
        proof {
            assert(v@.subrange(0, v@.len() as int) =~= v@);
        }
        Err(Diagnostic { errors })
    }
}

/// One generic argument inside angle brackets.
#[derive(Debug, PartialEq, Eq)]
pub enum GenericArg {
    TypeArg(Type),
    LifetimeArg,
    OtherArg,
}

/// The arguments of one path segment.
#[derive(Debug, PartialEq, Eq)]
pub enum PathArguments {
    NoArgs,
    AngleBracketed(Vec<GenericArg>),
    Parenthesized,
}

/// One segment of a path.
#[derive(Debug, PartialEq, Eq)]
pub struct PathSegment {
    pub ident: String,
    pub arguments: PathArguments,
}

/// A possibly qualified path.
#[derive(Debug, PartialEq, Eq)]
pub struct Path {
    pub leading_colon: bool,
    pub segments: Vec<PathSegment>,
}

/// The value model of a source type: exactly the structure the collector
/// inspects; everything else is carried opaquely.
#[derive(Debug, PartialEq, Eq)]
pub enum Type {
    /// A path type; `qself` records whether it had a qualified prefix.
    Path { qself: bool, path: Path },
    /// A reference, with whether a named lifetime was written on it.
    Reference { lifetime: bool, mutable: bool, elem: Box<Type> },
    /// A tuple type.
    Tuple { elems: Vec<Type> },
    /// Any other form, carried through as text; `has_lifetime` records
    /// whether a lifetime occurs anywhere inside it.
    Opaque { text: String, has_lifetime: bool },
}

/// Whether a lifetime occurs anywhere inside one generic argument.
pub open spec fn generic_arg_has_lifetime(a: GenericArg) -> bool
    decreases a,
{
    match a {
        GenericArg::TypeArg(t) => type_has_lifetime(t),
        GenericArg::LifetimeArg => true,
        GenericArg::OtherArg => false,
    }
}

/// Whether a lifetime occurs anywhere inside the generic arguments.
pub open spec fn generic_args_have_lifetime(args: Seq<GenericArg>) -> bool
    decreases args,
{
    exists|i: int| 0 <= i < args.len() && generic_arg_has_lifetime(#[trigger] args[i])
}

/// Whether a lifetime occurs anywhere inside one path segment.
pub open spec fn segment_has_lifetime(s: PathSegment) -> bool
    decreases s,
{
    match s.arguments {
        PathArguments::NoArgs => false,
        PathArguments::AngleBracketed(args) => generic_args_have_lifetime(args@),
        PathArguments::Parenthesized => false,
    }
}

/// Whether a lifetime occurs anywhere inside the path.
pub open spec fn path_has_lifetime(p: Path) -> bool
    decreases p,
{
    exists|i: int|
        0 <= i < p.segments@.len() && segment_has_lifetime(#[trigger] p.segments@[i])
}

/// Whether a lifetime occurs anywhere inside the type.
pub open spec fn type_has_lifetime(t: Type) -> bool
    decreases t,
{
    match t {
        Type::Path { qself, path } => path_has_lifetime(path),
        Type::Reference { lifetime, mutable, elem } => lifetime || type_has_lifetime(*elem),
        Type::Tuple { elems } => exists|i: int|
            0 <= i < elems@.len() && type_has_lifetime(#[trigger] elems@[i]),
        Type::Opaque { text, has_lifetime } => has_lifetime,
    }
}

/// Structural equivalence of generic arguments.
pub open spec fn generic_arg_eq(a: GenericArg, b: GenericArg) -> bool
    decreases a,
{
    match (a, b) {
        (GenericArg::TypeArg(ta), GenericArg::TypeArg(tb)) => type_eq(ta, tb),
        (GenericArg::LifetimeArg, GenericArg::LifetimeArg) => true,
        (GenericArg::OtherArg, GenericArg::OtherArg) => true,
        _ => false,
    }
}

/// Pointwise structural equivalence of generic argument lists.
pub open spec fn generic_args_eq(a: Seq<GenericArg>, b: Seq<GenericArg>) -> bool
    decreases a,
{
    a.len() == b.len() && forall|i: int|
        0 <= i < a.len() ==> generic_arg_eq(#[trigger] a[i], b[i])
}

/// Structural equivalence of path segment arguments.
pub open spec fn path_args_eq(a: PathArguments, b: PathArguments) -> bool
    decreases a,
{
    match (a, b) {
        (PathArguments::NoArgs, PathArguments::NoArgs) => true,
        (PathArguments::AngleBracketed(xa), PathArguments::AngleBracketed(xb)) => generic_args_eq(
            xa@,
            xb@,
        ),
        (PathArguments::Parenthesized, PathArguments::Parenthesized) => true,
        _ => false,
    }
}

/// Structural equivalence of path segments.
pub open spec fn segment_eq(a: PathSegment, b: PathSegment) -> bool
    decreases a,
{
    a.ident@ == b.ident@ && path_args_eq(a.arguments, b.arguments)
}

/// Structural equivalence of paths.
pub open spec fn path_eq(a: Path, b: Path) -> bool
    decreases a,
{
    a.leading_colon == b.leading_colon && a.segments@.len() == b.segments@.len() && forall|i: int|
        0 <= i < a.segments@.len() ==> segment_eq(#[trigger] a.segments@[i], b.segments@[i])
}

/// Pointwise structural equivalence of type lists.
pub open spec fn types_eq(a: Seq<Type>, b: Seq<Type>) -> bool
    decreases a,
{
    a.len() == b.len() && forall|i: int| 0 <= i < a.len() ==> type_eq(#[trigger] a[i], b[i])
}

/// Structural equivalence of types: equality of everything the collector
/// reads, with vectors compared element for element.
pub open spec fn type_eq(a: Type, b: Type) -> bool
    decreases a,
{
    match (a, b) {
        (Type::Path { qself: qa, path: pa }, Type::Path { qself: qb, path: pb }) => qa == qb
            && path_eq(pa, pb),
        (
            Type::Reference { lifetime: la, mutable: ma, elem: ea },
            Type::Reference { lifetime: lb, mutable: mb, elem: eb },
        ) => la == lb && ma == mb && type_eq(*ea, *eb),
        (Type::Tuple { elems: ea }, Type::Tuple { elems: eb }) => types_eq(ea@, eb@),
        (
            Type::Opaque { text: ta, has_lifetime: ha },
            Type::Opaque { text: tb, has_lifetime: hb },
        ) => ta@ == tb@ && ha == hb,
        _ => false,
    }
}

/// Structural equivalence of optional types.
pub open spec fn opt_type_eq(a: Option<Type>, b: Option<Type>) -> bool {
    match (a, b) {
        (Option::None, Option::None) => true,
        (Option::Some(ta), Option::Some(tb)) => type_eq(ta, tb),
        _ => false,
    }
}

/// Every generic argument is equivalent to itself.
pub proof fn lemma_generic_arg_eq_reflexive(a: GenericArg)
    ensures
        generic_arg_eq(a, a),
    decreases a,
{
    match a {
        GenericArg::TypeArg(t) => lemma_type_eq_reflexive(t),
        GenericArg::LifetimeArg => {},
        GenericArg::OtherArg => {},
    }
}

/// Every path segment is equivalent to itself.
pub proof fn lemma_segment_eq_reflexive(s: PathSegment)
    ensures
        segment_eq(s, s),
    decreases s,
{
    match s.arguments {
        PathArguments::NoArgs => {},
        PathArguments::AngleBracketed(args) => {
            assert forall|i: int| 0 <= i < args@.len() implies generic_arg_eq(
                #[trigger] args@[i],
                args@[i],
            ) by {
                lemma_generic_arg_eq_reflexive(args@[i]);
            }
        },
        PathArguments::Parenthesized => {},
    }
}

/// Every path is equivalent to itself.
pub proof fn lemma_path_eq_reflexive(p: Path)
    ensures
        path_eq(p, p),
    decreases p,
{
    assert forall|i: int| 0 <= i < p.segments@.len() implies segment_eq(
        #[trigger] p.segments@[i],
        p.segments@[i],
    ) by {
        lemma_segment_eq_reflexive(p.segments@[i]);
    }
}

/// Every type is equivalent to itself.
pub proof fn lemma_type_eq_reflexive(t: Type)
    ensures
        type_eq(t, t),
    decreases t,
{
    match t {
        Type::Path { qself, path } => {
            lemma_path_eq_reflexive(path);
            assert(type_eq(t, t));
        },
        Type::Reference { lifetime, mutable, elem } => {
            lemma_type_eq_reflexive(*elem);
            assert(type_eq(t, t));
        },
        Type::Tuple { elems } => {
            assert forall|i: int| 0 <= i < elems@.len() implies type_eq(
                #[trigger] elems@[i],
                elems@[i],
            ) by {
                lemma_type_eq_reflexive(elems@[i]);
            }
            assert(types_eq(elems@, elems@));
            assert(type_eq(t, t));
        },
        Type::Opaque { text, has_lifetime } => {
            assert(type_eq(t, t));
        },
    }
}

impl Clone for GenericArg {
    fn clone(&self) -> (res: Self)
        ensures
            generic_arg_eq(res, *self),
        decreases *self,
    {
        match self {
            GenericArg::TypeArg(t) => {
                proof {
                    assert(decreases_to!(*self => *t));
                }
                GenericArg::TypeArg(t.clone())
            },
            GenericArg::LifetimeArg => GenericArg::LifetimeArg,
            GenericArg::OtherArg => GenericArg::OtherArg,
        }
    }
}

impl Clone for PathArguments {
    #[verifier::loop_isolation(false)]
    fn clone(&self) -> (res: Self)
        ensures
            path_args_eq(res, *self),
        decreases *self,
    {
        match self {
            PathArguments::NoArgs => PathArguments::NoArgs,
            PathArguments::AngleBracketed(args) => {
                let mut out: Vec<GenericArg> = Vec::new();
                let mut i: usize = 0;
                while i < args.len()
                    invariant
                        0 <= i <= args@.len(),
                        out@.len() == i,
                        forall|j: int| 0 <= j < i ==> generic_arg_eq(#[trigger] out@[j], args@[j]),
                    decreases args@.len() - i,
                {
                    proof {
                        assert(decreases_to!(*self => *args));
                        assert(decreases_to!(*args => args@));
                        assert(decreases_to!(args@ => args@[i as int]));
                    }
                    out.push(args[i].clone());
                    i = i + 1;
                }
                PathArguments::AngleBracketed(out)
            },
            PathArguments::Parenthesized => PathArguments::Parenthesized,
        }
    }
}

impl Clone for PathSegment {
    fn clone(&self) -> (res: Self)
        ensures
            segment_eq(res, *self),
        decreases *self,
    {
        PathSegment { ident: self.ident.clone(), arguments: self.arguments.clone() }
    }
}

impl Clone for Path {
    #[verifier::loop_isolation(false)]
    fn clone(&self) -> (res: Self)
        ensures
            path_eq(res, *self),
        decreases *self,
    {
        let mut out: Vec<PathSegment> = Vec::new();
        let mut i: usize = 0;
        while i < self.segments.len()
            invariant
                0 <= i <= self.segments@.len(),
                out@.len() == i,
                forall|j: int|
                    0 <= j < i ==> segment_eq(#[trigger] out@[j], self.segments@[j]),
            decreases self.segments@.len() - i,
        {
            proof {
                assert(decreases_to!(*self => self.segments));
                assert(decreases_to!(self.segments => self.segments@));
                assert(decreases_to!(self.segments@ => self.segments@[i as int]));
            }
            out.push(self.segments[i].clone());
            i = i + 1;
        }
        Path { leading_colon: self.leading_colon, segments: out }
    }
}

impl Clone for Type {
    #[verifier::loop_isolation(false)]
    fn clone(&self) -> (res: Self)
        ensures
            type_eq(res, *self),
        decreases *self,
    {
        match self {
            Type::Path { qself, path } => {
                proof {
                    assert(decreases_to!(*self => *path));
                }
                Type::Path { qself: *qself, path: path.clone() }
            },
            Type::Reference { lifetime, mutable, elem } => {
                proof {
                    assert(decreases_to!(*self => self->Reference_elem));
                    assert(decreases_to!(*self => *self->Reference_elem));
                }
                Type::Reference {
                    lifetime: *lifetime,
                    mutable: *mutable,
                    elem: Box::new((&**elem).clone()),
                }
            },
            Type::Tuple { elems } => {
                let mut out: Vec<Type> = Vec::new();
                let mut i: usize = 0;
                while i < elems.len()
                    invariant
                        0 <= i <= elems@.len(),
                        out@.len() == i,
                        forall|j: int| 0 <= j < i ==> type_eq(#[trigger] out@[j], elems@[j]),
                    decreases elems@.len() - i,
                {
                    proof {
                        assert(decreases_to!(*self => *elems));
                        assert(decreases_to!(*elems => elems@));
                        assert(decreases_to!(elems@ => elems@[i as int]));
                    }
                    out.push(elems[i].clone());
                    i = i + 1;
                }
                proof {
                    assert(types_eq(out@, elems@));
                }
                Type::Tuple { elems: out }
            },
            Type::Opaque { text, has_lifetime } => Type::Opaque {
                text: text.clone(),
                has_lifetime: *has_lifetime,
            },
        }
    }
}

impl GenericArg {
    /// Whether a lifetime occurs anywhere inside this argument.
    pub fn has_lifetime(&self) -> (r: bool)
        ensures
            r == generic_arg_has_lifetime(*self),
        decreases *self,
    {
        match self {
            GenericArg::TypeArg(t) => {
                proof {
                    assert(decreases_to!(*self => *t));
                }
                t.has_lifetime()
            },
            GenericArg::LifetimeArg => true,
            GenericArg::OtherArg => false,
        }
    }
}

impl PathSegment {
    /// Whether a lifetime occurs anywhere inside this segment.
    #[verifier::loop_isolation(false)]
    pub fn has_lifetime(&self) -> (r: bool)
        ensures
            r == segment_has_lifetime(*self),
        decreases *self,
    {
        match &self.arguments {
            PathArguments::NoArgs => false,
            PathArguments::AngleBracketed(args) => {
                let mut i: usize = 0;
                let mut found = false;
                while i < args.len()
                    invariant
                        0 <= i <= args@.len(),
                        found == exists|j: int|
                            0 <= j < i && generic_arg_has_lifetime(#[trigger] args@[j]),
                    decreases args@.len() - i,
                {
                    proof {
                        assert(decreases_to!(*self => self.arguments));
                        assert(decreases_to!(self.arguments => *args));
                        assert(decreases_to!(*args => args@));
                        assert(decreases_to!(args@ => args@[i as int]));
                    }
                    if args[i].has_lifetime() {
                        found = true;
                    }
                    i = i + 1;
                }
                found
            },
            PathArguments::Parenthesized => false,
        }
    }
}

impl Path {
    /// Whether a lifetime occurs anywhere inside this path.
    #[verifier::loop_isolation(false)]
    pub fn has_lifetime(&self) -> (r: bool)
        ensures
            r == path_has_lifetime(*self),
        decreases *self,
    {
        let mut i: usize = 0;
        let mut found = false;
        while i < self.segments.len()
            invariant
                0 <= i <= self.segments@.len(),
                found == exists|j: int|
                    0 <= j < i && segment_has_lifetime(#[trigger] self.segments@[j]),
            decreases self.segments@.len() - i,
        {
            proof {
                assert(decreases_to!(*self => self.segments));
                assert(decreases_to!(self.segments => self.segments@));
                assert(decreases_to!(self.segments@ => self.segments@[i as int]));
            }
            if self.segments[i].has_lifetime() {
                found = true;
            }
            i = i + 1;
        }
        found
    }
}

impl Type {
    /// Whether a lifetime occurs anywhere inside this type.
    #[verifier::loop_isolation(false)]
    pub fn has_lifetime(&self) -> (r: bool)
        ensures
            r == type_has_lifetime(*self),
        decreases *self,
    {
        match self {
            Type::Path { qself, path } => {
                proof {
                    assert(decreases_to!(*self => *path));
                }
                path.has_lifetime()
            },
            Type::Reference { lifetime, mutable, elem } => {
                proof {
                    assert(decreases_to!(*self => self->Reference_elem));
                    assert(decreases_to!(*self => *self->Reference_elem));
                }
                *lifetime || (&**elem).has_lifetime()
            },
            Type::Tuple { elems } => {
                let mut i: usize = 0;
                let mut found = false;
                while i < elems.len()
                    invariant
                        0 <= i <= elems@.len(),
                        found == exists|j: int|
                            0 <= j < i && type_has_lifetime(#[trigger] elems@[j]),
                    decreases elems@.len() - i,
                {
                    proof {
                        assert(decreases_to!(*self => *elems));
                        assert(decreases_to!(*elems => elems@));
                        assert(decreases_to!(elems@ => elems@[i as int]));
                    }
                    if elems[i].has_lifetime() {
                        found = true;
                    }
                    i = i + 1;
                }
                found
            },
            Type::Opaque { text, has_lifetime } => *has_lifetime,
        }
    }
}

/// One attribute attached to a declaration, with the parts the collector
/// reads: its path, the parenthesised attribute list when the first token
/// tree is a group, and the literal tokens (for doc comments).
#[derive(Debug, PartialEq, Eq)]
pub struct Attribute {
    /// The segments of the attribute's path.
    pub path: Vec<String>,
    /// The position of the whole attribute.
    pub span: Span,
    /// The shape of the attribute body's token stream.
    pub body: AttrBody,
    /// The literal tokens of the attribute body, in order.
    pub literals: Vec<String>,
}

/// The shape of an attribute body: empty, a delimited group holding an
/// attribute list (with whether any token follows it), or something else.
#[derive(Debug, PartialEq, Eq)]
pub enum AttrBody {
    EmptyBody,
    GroupBody(AttrList, bool),
    OtherBody,
}

/// A delimited group holding a comma-separated attribute list.
#[derive(Debug, PartialEq, Eq)]
pub struct AttrList {
    /// Whether the delimiter is parentheses.
    pub paren: bool,
    pub attrs: Vec<RawAttr>,
}

/// One keyword of an attribute list, before vocabulary checking.
#[derive(Debug, PartialEq, Eq)]
pub struct RawAttr {
    pub keyword: String,
    pub span: Span,
    pub value: AttrValue,
}

/// The payload written after a keyword, if any.
#[derive(Debug, PartialEq, Eq)]
pub enum AttrValue {
    /// No `=` followed the keyword.
    NoValue,
    /// `= identifier`.
    Ident(String, Span),
    /// `= "literal"`.
    Str(String, Span),
    /// `= path` with more than a bare identifier.
    PathValue(Path, Span),
    /// `= expression` with any other expression, carried as text.
    Expr(String, Span),
}


/// A member name of a struct: named, or positional for tuple structs.
#[derive(Debug, PartialEq, Eq)]
pub enum Member {
    Named(String),
    Unnamed(usize),
}

impl Clone for Member {
    fn clone(&self) -> (res: Self)
        ensures
            res == *self,
    {
        match self {
            Member::Named(s) => Member::Named(s.clone()),
            Member::Unnamed(i) => Member::Unnamed(*i),
        }
    }
}

/// A function signature lowered into the AST.
#[derive(Debug, PartialEq, Eq)]
pub struct Function {
    pub name: String,
    pub name_span: Span,
    pub renamed_via_js_name: bool,
    pub arguments: Vec<CapturedArg>,
    pub ret: Option<Type>,
    pub rust_attrs: Vec<Attribute>,
    pub rust_vis_pub: bool,
}

/// One ordinary (non-self) argument.
#[derive(Debug, PartialEq, Eq)]
pub struct CapturedArg {
    pub name: String,
    pub ty: Type,
}

/// How a method takes its receiver.
#[derive(Clone, Copy, Debug, PartialEq, Eq, Structural)]
pub enum MethodSelf {
    ByValue,
    RefMutable,
    RefShared,
}

/// The flavour of an operation.
#[derive(Debug, PartialEq, Eq)]
pub enum OperationKind {
    Regular,
    Getter(Option<String>),
    Setter(Option<String>),
    IndexingGetter,
    IndexingSetter,
    IndexingDeleter,
}

/// An operation together with whether it is static.
#[derive(Debug, PartialEq, Eq)]
pub struct Operation {
    pub is_static: bool,
    pub kind: OperationKind,
}

/// How an export or imported method is invoked.
#[derive(Debug, PartialEq, Eq)]
pub enum MethodKind {
    Constructor,
    Operation(Operation),
}

/// One exported function, method or constructor.
#[derive(Debug, PartialEq, Eq)]
pub struct Export {
    pub comments: Vec<String>,
    pub function: Function,
    pub js_class: Option<String>,
    pub method_kind: MethodKind,
    pub method_self: Option<MethodSelf>,
    pub rust_class: Option<String>,
    pub rust_name: String,
    pub start: bool,
}

/// Which host module an import comes from.
#[derive(Debug, PartialEq, Eq)]
pub enum ImportModule {
    NoModule,
    Named(String, Span),
    RawNamed(String, Span),
    Inline(usize, Span),
}

impl Clone for ImportModule {
    fn clone(&self) -> (res: Self)
        ensures
            res == *self,
    {
        match self {
            ImportModule::NoModule => ImportModule::NoModule,
            ImportModule::Named(s, sp) => ImportModule::Named(s.clone(), *sp),
            ImportModule::RawNamed(s, sp) => ImportModule::RawNamed(s.clone(), *sp),
            ImportModule::Inline(i, sp) => ImportModule::Inline(*i, *sp),
        }
    }
}

/// How an imported function is dispatched.
#[derive(Debug, PartialEq, Eq)]
pub enum ImportFunctionKind {
    Normal,
    Method { class: String, ty: Type, kind: MethodKind },
}

/// One imported foreign function.
#[derive(Debug, PartialEq, Eq)]
pub struct ImportFunction {
    pub function: Function,
    pub kind: ImportFunctionKind,
    pub js_ret: Option<Type>,
    pub catch: bool,
    pub variadic: bool,
    pub structural: bool,
    pub rust_name: String,
    pub shim: String,
    pub doc_comment: Option<String>,
}

/// One imported foreign type.
#[derive(Debug, PartialEq, Eq)]
pub struct ImportType {
    pub vis_pub: bool,
    pub attrs: Vec<Attribute>,
    pub doc_comment: Option<String>,
    pub instanceof_shim: String,
    pub is_type_of: Option<String>,
    pub rust_name: String,
    pub js_name: String,
    pub extends: Vec<Path>,
    pub vendor_prefixes: Vec<String>,
}

/// One imported foreign static.
#[derive(Debug, PartialEq, Eq)]
pub struct ImportStatic {
    pub ty: Type,
    pub vis_pub: bool,
    pub rust_name: String,
    pub js_name: String,
    pub shim: String,
}

/// The kind of one import.
#[derive(Debug, PartialEq, Eq)]
pub enum ImportKind {
    Function(ImportFunction),
    Type(ImportType),
    Static(ImportStatic),
}

/// One import, with its module and optional namespace.
#[derive(Debug, PartialEq, Eq)]
pub struct Import {
    pub module: ImportModule,
    pub js_namespace: Option<String>,
    pub kind: ImportKind,
}

/// One exported struct field.
#[derive(Debug, PartialEq, Eq)]
pub struct StructField {
    pub name: Member,
    pub struct_name: String,
    pub readonly: bool,
    pub ty: Type,
    pub getter: String,
    pub setter: String,
    pub comments: Vec<String>,
}

/// One exported struct.
#[derive(Debug, PartialEq, Eq)]
pub struct Struct {
    pub rust_name: String,
    pub js_name: String,
    pub fields: Vec<StructField>,
    pub comments: Vec<String>,
}

/// One variant of an exported enum.
#[derive(Debug, PartialEq, Eq)]
pub struct Variant {
    pub name: String,
    pub value: u32,
}

/// One exported C-style enum, with its hole value.
#[derive(Debug, PartialEq, Eq)]
pub struct Enum {
    pub name: String,
    pub variants: Vec<Variant>,
    pub comments: Vec<String>,
    pub hole: u32,
}

/// The accumulated result of one compilation unit.
#[derive(Debug, PartialEq, Eq)]
pub struct Program {
    pub exports: Vec<Export>,
    pub imports: Vec<Import>,
    pub structs: Vec<Struct>,
    pub enums: Vec<Enum>,
    pub typescript_custom_sections: Vec<String>,
    pub inline_js: Vec<String>,
}

impl Program {
    /// An empty program, ready to accumulate declarations.
    pub fn new() -> (p: Program)
        ensures
            p.exports@.len() == 0,
            p.imports@.len() == 0,
            p.structs@.len() == 0,
            p.enums@.len() == 0,
            p.typescript_custom_sections@.len() == 0,
            p.inline_js@.len() == 0,
    {
        Program {
            exports: Vec::new(),
            imports: Vec::new(),
            structs: Vec::new(),
            enums: Vec::new(),
            typescript_custom_sections: Vec::new(),
            inline_js: Vec::new(),
        }
    }
}

} // verus!
