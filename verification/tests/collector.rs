//! The collector: declaration lowering, conflict diagnostics, the enum hole,
//! and the audit discipline across whole items.

use bindgen_core::ast::{
    AttrList, AttrValue, Attribute, AttrBody, ImportFunctionKind, ImportKind, ImportModule, Member,
    MethodKind, Path, PathArguments, PathSegment, Program, RawAttr, Span, Type,
};
use bindgen_core::attrs::{
    assert_all_attrs_checked, reset_attrs_used, AttributeParseState, BindgenAttrs,
};
use bindgen_core::ast::MethodSelf;
use bindgen_core::ast::OperationKind;
use bindgen_core::decl::{
    DiscriminantDecl, FieldDecl, FnArg, FnDecl, ForeignItem, ForeignItemFn, ForeignItemStatic,
    ForeignItemType, ImplItem, ImplItemMethod, Item, ItemConst, ItemEnum, ItemFn, ItemForeignMod,
    ItemImpl, ItemStruct, VariantDecl,
};
use bindgen_core::parser::assert_no_lifetimes;
use bindgen_core::parser::operation_kind;

fn sp() -> Span {
    Span { lo: 0, hi: 0 }
}

fn raw(kw: &str, value: AttrValue) -> RawAttr {
    RawAttr { keyword: kw.to_string(), span: sp(), value }
}

fn state(strict: bool) -> AttributeParseState {
    AttributeParseState { parsed: 0, checks: 0, strict }
}

fn bag(st: &mut AttributeParseState, raws: Vec<RawAttr>) -> BindgenAttrs {
    BindgenAttrs::parse(st, AttrList { paren: true, attrs: raws }).unwrap()
}

fn path_ty(name: &str) -> Type {
    Type::Path {
        qself: false,
        path: Path {
            leading_colon: false,
            segments: vec![PathSegment {
                ident: name.to_string(),
                arguments: PathArguments::NoArgs,
            }],
        },
    }
}

fn nullary_decl() -> FnDecl {
    FnDecl {
        span: sp(),
        generics_count: 0,
        generics_span: sp(),
        inputs: vec![],
        output: None,
        variadic: None,
    }
}

fn wb_attr(raws: Vec<RawAttr>) -> Attribute {
    Attribute {
        path: vec!["wasm_bindgen".to_string()],
        span: sp(),
        body: AttrBody::GroupBody(AttrList { paren: true, attrs: raws }, false),
        literals: vec![],
    }
}

fn variant(name: &str, value: Option<u64>) -> VariantDecl {
    VariantDecl {
        ident: name.to_string(),
        unit_fields: true,
        discriminant: value.map(|v| DiscriminantDecl::IntLit(v, sp())),
        span: sp(),
    }
}

fn enum_of(variants: Vec<VariantDecl>) -> ItemEnum {
    ItemEnum { ident: "E".to_string(), vis_pub: true, variants, attrs: vec![], span: sp() }
}

#[test]
fn enum_hole_skips_the_first_gap() {
    let mut program = Program::new();
    enum_of(vec![variant("A", Some(1)), variant("B", Some(3))])
        .macro_parse(&mut program)
        .unwrap();
    assert_eq!(program.enums[0].hole, 2);
    assert_eq!(program.enums[0].variants[0].value, 1);
    assert_eq!(program.enums[0].variants[1].value, 3);
}

#[test]
fn enum_hole_follows_a_dense_prefix() {
    let mut program = Program::new();
    enum_of(vec![variant("A", Some(0)), variant("B", Some(1))])
        .macro_parse(&mut program)
        .unwrap();
    assert_eq!(program.enums[0].hole, 2);
}

#[test]
fn enum_without_discriminants_numbers_by_position() {
    let mut program = Program::new();
    enum_of(vec![variant("A", None), variant("B", None), variant("C", None)])
        .macro_parse(&mut program)
        .unwrap();
    let e = &program.enums[0];
    assert_eq!(e.variants.iter().map(|v| v.value).collect::<Vec<_>>(), vec![0, 1, 2]);
    assert_eq!(e.hole, 3);
}

#[test]
fn enum_hole_never_collides_with_a_variant() {
    let mut program = Program::new();
    enum_of(vec![variant("A", Some(7)), variant("B", Some(9)), variant("C", Some(8))])
        .macro_parse(&mut program)
        .unwrap();
    let e = &program.enums[0];
    for v in &e.variants {
        assert_ne!(e.hole, v.value);
    }
}

#[test]
fn enum_with_mixed_discriminants_is_rejected() {
    let mut program = Program::new();
    let r = enum_of(vec![variant("A", Some(1)), variant("B", None)]).macro_parse(&mut program);
    assert!(r.is_err());
}

#[test]
fn enum_rejects_private_empty_and_wide_values() {
    let mut program = Program::new();
    let mut e = enum_of(vec![variant("A", None)]);
    e.vis_pub = false;
    assert!(e.macro_parse(&mut program).is_err());
    assert!(enum_of(vec![]).macro_parse(&mut program).is_err());
    let r = enum_of(vec![variant("A", Some(0x1_0000_0000))]).macro_parse(&mut program);
    assert!(r.is_err());
}

#[test]
fn struct_skips_private_and_skipped_fields() {
    let mut st = state(false);
    let opts = bag(&mut st, vec![]);
    let s = ItemStruct {
        ident: "S".to_string(),
        generics_count: 0,
        generics_span: sp(),
        fields: vec![
            FieldDecl {
                ident: Some("a".to_string()),
                vis_pub: true,
                attrs: vec![],
                ty: path_ty("i32"),
                span: sp(),
            },
            FieldDecl {
                ident: Some("b".to_string()),
                vis_pub: true,
                attrs: vec![wb_attr(vec![raw("skip", AttrValue::NoValue)])],
                ty: path_ty("i32"),
                span: sp(),
            },
            FieldDecl {
                ident: Some("c".to_string()),
                vis_pub: false,
                attrs: vec![],
                ty: path_ty("i32"),
                span: sp(),
            },
        ],
        attrs: vec![],
        span: sp(),
    };
    let out = s.convert(&mut st, opts).unwrap();
    assert_eq!(out.js_name, "S");
    assert_eq!(out.fields.len(), 1);
    assert_eq!(out.fields[0].name, Member::Named("a".to_string()));
    assert_eq!(out.fields[0].getter, "__wbg_get_S_a");
    assert_eq!(out.fields[0].setter, "__wbg_set_S_a");
    assert!(!out.fields[0].readonly);
    assert!(assert_all_attrs_checked(&st));
}

#[test]
fn struct_field_readonly_is_recorded() {
    let mut st = state(true);
    let opts = bag(&mut st, vec![]);
    let s = ItemStruct {
        ident: "S".to_string(),
        generics_count: 0,
        generics_span: sp(),
        fields: vec![FieldDecl {
            ident: Some("a".to_string()),
            vis_pub: true,
            attrs: vec![wb_attr(vec![raw("readonly", AttrValue::NoValue)])],
            ty: path_ty("u8"),
            span: sp(),
        }],
        attrs: vec![],
        span: sp(),
    };
    let out = s.convert(&mut st, opts).unwrap();
    assert!(out.fields[0].readonly);
    assert!(assert_all_attrs_checked(&st));
}

#[test]
fn variadic_is_rejected_on_an_export() {
    let mut st = state(false);
    let opts = bag(&mut st, vec![raw("variadic", AttrValue::NoValue)]);
    let f = ItemFn {
        ident: "f".to_string(),
        ident_span: sp(),
        vis_pub: true,
        constness: None,
        unsafety: None,
        decl: nullary_decl(),
        attrs: vec![],
        span: sp(),
    };
    assert!(f.convert(&mut st, opts).is_err());
}

#[test]
fn structural_and_final_conflict_on_an_import() {
    let mut st = state(false);
    let opts = bag(
        &mut st,
        vec![raw("structural", AttrValue::NoValue), raw("final", AttrValue::NoValue)],
    );
    let f = ForeignItemFn {
        ident: "f".to_string(),
        ident_span: sp(),
        vis_pub: true,
        decl: nullary_decl(),
        attrs: vec![],
        span: sp(),
    };
    assert!(f.convert(&mut st, opts, &ImportModule::NoModule).is_err());
}

#[test]
fn simple_import_lowers_to_a_normal_function() {
    let mut st = state(false);
    let mut program = Program::new();
    let greet = ForeignItemFn {
        ident: "greet".to_string(),
        ident_span: sp(),
        vis_pub: true,
        decl: FnDecl {
            span: sp(),
            generics_count: 0,
            generics_span: sp(),
            inputs: vec![FnArg::Captured {
                name: "name".to_string(),
                ty: Type::Reference {
                    lifetime: false,
                    mutable: false,
                    elem: Box::new(path_ty("str")),
                },
            }],
            output: Some(path_ty("String")),
            variadic: None,
        },
        attrs: vec![],
        span: sp(),
    };
    let block = ItemForeignMod {
        abi_name: Some("C".to_string()),
        abi_span: sp(),
        attrs: vec![],
        items: vec![ForeignItem::ForeignFn(greet)],
        span: sp(),
    };
    let opts = bag(&mut st, vec![raw("module", AttrValue::Str("./x".to_string(), sp()))]);
    block.macro_parse(&mut program, &mut st, opts).unwrap();
    assert!(assert_all_attrs_checked(&st));
    assert_eq!(program.imports.len(), 1);
    let import = &program.imports[0];
    assert_eq!(import.module, ImportModule::Named("./x".to_string(), sp()));
    match &import.kind {
        ImportKind::Function(f) => {
            assert!(matches!(f.kind, ImportFunctionKind::Normal));
            assert!(!f.catch);
            assert!(!f.variadic);
            assert!(f.structural);
            assert_eq!(f.js_ret, Some(path_ty("String")));
            assert!(f.shim.starts_with("__wbg_greet_"));
            assert_eq!(f.shim.len(), "__wbg_greet_".len() + 16);
        }
        _ => panic!("expected a function import"),
    }
}

#[test]
fn shim_symbols_are_stable_across_runs() {
    fn run() -> String {
        let mut st = state(false);
        let mut program = Program::new();
        let greet = ForeignItemFn {
            ident: "greet".to_string(),
            ident_span: sp(),
            vis_pub: true,
            decl: nullary_decl(),
            attrs: vec![],
            span: sp(),
        };
        let block = ItemForeignMod {
            abi_name: None,
            abi_span: sp(),
            attrs: vec![],
            items: vec![ForeignItem::ForeignFn(greet)],
            span: sp(),
        };
        let opts = bag(&mut st, vec![raw("module", AttrValue::Str("./x".to_string(), sp()))]);
        block.macro_parse(&mut program, &mut st, opts).unwrap();
        match &program.imports[0].kind {
            ImportKind::Function(f) => f.shim.clone(),
            _ => panic!("expected a function import"),
        }
    }
    assert_eq!(run(), run());
}

#[test]
fn catching_import_unwraps_the_success_type() {
    let mut st = state(false);
    let ret = Type::Path {
        qself: false,
        path: Path {
            leading_colon: false,
            segments: vec![PathSegment {
                ident: "Result".to_string(),
                arguments: PathArguments::AngleBracketed(vec![
                    bindgen_core::ast::GenericArg::TypeArg(path_ty("MyType")),
                    bindgen_core::ast::GenericArg::TypeArg(path_ty("JsValue")),
                ]),
            }],
        },
    };
    let parse = ForeignItemFn {
        ident: "parse".to_string(),
        ident_span: sp(),
        vis_pub: true,
        decl: FnDecl {
            span: sp(),
            generics_count: 0,
            generics_span: sp(),
            inputs: vec![FnArg::Captured {
                name: "s".to_string(),
                ty: Type::Reference {
                    lifetime: false,
                    mutable: false,
                    elem: Box::new(path_ty("str")),
                },
            }],
            output: Some(ret),
            variadic: None,
        },
        attrs: vec![],
        span: sp(),
    };
    let opts = bag(&mut st, vec![raw("catch", AttrValue::NoValue)]);
    let kind = parse.convert(&mut st, opts, &ImportModule::NoModule).unwrap();
    match kind {
        ImportKind::Function(f) => {
            assert!(f.catch);
            assert_eq!(f.js_ret, Some(path_ty("MyType")));
        }
        _ => panic!("expected a function import"),
    }
}

#[test]
fn method_import_takes_its_class_from_the_receiver() {
    let mut st = state(false);
    let m = ForeignItemFn {
        ident: "get".to_string(),
        ident_span: sp(),
        vis_pub: true,
        decl: FnDecl {
            span: sp(),
            generics_count: 0,
            generics_span: sp(),
            inputs: vec![FnArg::Captured {
                name: "this".to_string(),
                ty: Type::Reference {
                    lifetime: false,
                    mutable: false,
                    elem: Box::new(path_ty("Element")),
                },
            }],
            output: None,
            variadic: None,
        },
        attrs: vec![],
        span: sp(),
    };
    let opts = bag(&mut st, vec![raw("method", AttrValue::NoValue)]);
    let kind = m.convert(&mut st, opts, &ImportModule::NoModule).unwrap();
    match kind {
        ImportKind::Function(f) => match f.kind {
            ImportFunctionKind::Method { class, ty, kind } => {
                assert_eq!(class, "Element");
                assert_eq!(ty, path_ty("Element"));
                assert!(matches!(kind, MethodKind::Operation(_)));
            }
            _ => panic!("expected a method import"),
        },
        _ => panic!("expected a function import"),
    }
}

#[test]
fn mutable_foreign_static_is_rejected() {
    let mut st = state(false);
    let s = ForeignItemStatic {
        ident: "G".to_string(),
        mutability: Some(sp()),
        ty: path_ty("u32"),
        vis_pub: true,
        attrs: vec![],
        span: sp(),
    };
    let opts = bag(&mut st, vec![]);
    assert!(s.convert(&mut st, opts, &ImportModule::NoModule).is_err());
}

#[test]
fn immutable_foreign_static_gets_an_accessor_shim() {
    let mut st = state(false);
    let s = ForeignItemStatic {
        ident: "G".to_string(),
        mutability: None,
        ty: path_ty("u32"),
        vis_pub: true,
        attrs: vec![],
        span: sp(),
    };
    let opts = bag(&mut st, vec![]);
    match s.convert(&mut st, opts, &ImportModule::NoModule).unwrap() {
        ImportKind::Static(st0) => {
            assert_eq!(st0.js_name, "G");
            assert!(st0.shim.starts_with("__wbg_static_accessor_G_"));
        }
        _ => panic!("expected a static import"),
    }
}

#[test]
fn module_conflicts_are_diagnostics() {
    for raws in [
        vec![
            raw("module", AttrValue::Str("m".to_string(), sp())),
            raw("inline_js", AttrValue::Str("c".to_string(), sp())),
        ],
        vec![
            raw("raw_module", AttrValue::Str("m".to_string(), sp())),
            raw("inline_js", AttrValue::Str("c".to_string(), sp())),
        ],
        vec![
            raw("module", AttrValue::Str("m".to_string(), sp())),
            raw("raw_module", AttrValue::Str("n".to_string(), sp())),
        ],
    ] {
        let mut st = state(false);
        let mut program = Program::new();
        let block = ItemForeignMod {
            abi_name: None,
            abi_span: sp(),
            attrs: vec![],
            items: vec![],
            span: sp(),
        };
        let opts = bag(&mut st, raws);
        assert!(block.macro_parse(&mut program, &mut st, opts).is_err());
    }
}

#[test]
fn inline_js_lands_in_the_snippet_pool() {
    let mut st = state(false);
    let mut program = Program::new();
    let block = ItemForeignMod {
        abi_name: None,
        abi_span: sp(),
        attrs: vec![],
        items: vec![],
        span: sp(),
    };
    let opts = bag(&mut st, vec![raw("inline_js", AttrValue::Str("x()".to_string(), sp()))]);
    block.macro_parse(&mut program, &mut st, opts).unwrap();
    assert_eq!(program.inline_js, vec!["x()".to_string()]);
}

#[test]
fn a_whole_compilation_balances_the_audit_counters() {
    let mut st = state(true);
    reset_attrs_used(&mut st);
    let mut program = Program::new();
    let f = ItemFn {
        ident: "run".to_string(),
        ident_span: sp(),
        vis_pub: true,
        constness: None,
        unsafety: None,
        decl: nullary_decl(),
        attrs: vec![],
        span: sp(),
    };
    Item::Fn(f).macro_parse(&mut program, &mut st, None).unwrap();
    let e = enum_of(vec![variant("A", None)]);
    Item::Enum(e).macro_parse(&mut program, &mut st, None).unwrap();
    assert!(assert_all_attrs_checked(&st));
    assert_eq!(program.exports.len(), 1);
    assert_eq!(program.exports[0].rust_name, "run");
    assert!(!program.exports[0].start);
}

#[test]
fn start_demands_a_nullary_function() {
    let mut st = state(false);
    let mut program = Program::new();
    let f = ItemFn {
        ident: "run".to_string(),
        ident_span: sp(),
        vis_pub: true,
        constness: None,
        unsafety: None,
        decl: FnDecl {
            span: sp(),
            generics_count: 0,
            generics_span: sp(),
            inputs: vec![FnArg::Captured { name: "x".to_string(), ty: path_ty("u32") }],
            output: None,
            variadic: None,
        },
        attrs: vec![],
        span: sp(),
    };
    let opts = bag(&mut st, vec![raw("start", AttrValue::NoValue)]);
    assert!(Item::Fn(f).macro_parse(&mut program, &mut st, Some(opts)).is_err());
}

#[test]
fn js_name_renames_an_export() {
    let mut st = state(false);
    let mut program = Program::new();
    let f = ItemFn {
        ident: "run".to_string(),
        ident_span: sp(),
        vis_pub: true,
        constness: None,
        unsafety: None,
        decl: nullary_decl(),
        attrs: vec![],
        span: sp(),
    };
    let opts = bag(&mut st, vec![raw("js_name", AttrValue::Str("go".to_string(), sp()))]);
    Item::Fn(f).macro_parse(&mut program, &mut st, Some(opts)).unwrap();
    assert_eq!(program.exports[0].function.name, "go");
    assert!(program.exports[0].function.renamed_via_js_name);
    assert!(assert_all_attrs_checked(&st));
}

#[test]
fn catching_import_unwraps_the_unit_tuple_to_nothing() {
    let mut st = state(false);
    let ret = Type::Path {
        qself: false,
        path: Path {
            leading_colon: false,
            segments: vec![PathSegment {
                ident: "Result".to_string(),
                arguments: PathArguments::AngleBracketed(vec![
                    bindgen_core::ast::GenericArg::TypeArg(Type::Tuple { elems: vec![] }),
                    bindgen_core::ast::GenericArg::TypeArg(path_ty("JsValue")),
                ]),
            }],
        },
    };
    let f = ForeignItemFn {
        ident: "run".to_string(),
        ident_span: sp(),
        vis_pub: true,
        decl: FnDecl {
            span: sp(),
            generics_count: 0,
            generics_span: sp(),
            inputs: vec![],
            output: Some(ret),
            variadic: None,
        },
        attrs: vec![],
        span: sp(),
    };
    let opts = bag(&mut st, vec![raw("catch", AttrValue::NoValue)]);
    match f.convert(&mut st, opts, &ImportModule::NoModule).unwrap() {
        ImportKind::Function(f) => {
            assert!(f.catch);
            assert_eq!(f.js_ret, None);
        }
        _ => panic!("expected a function import"),
    }
}

#[test]
fn impl_methods_become_class_exports() {
    let mut st = state(false);
    let mut program = Program::new();
    let method = ImplItemMethod {
        ident: "get".to_string(),
        ident_span: sp(),
        vis_pub: true,
        defaultness: None,
        constness: None,
        unsafety: None,
        decl: FnDecl {
            span: sp(),
            generics_count: 0,
            generics_span: sp(),
            inputs: vec![
                FnArg::SelfRef { mutable: false, lifetime: false },
                FnArg::Captured { name: "k".to_string(), ty: path_ty("u32") },
            ],
            output: Some(path_ty("Self")),
            variadic: None,
        },
        attrs: vec![],
        span: sp(),
        class_marker: None,
    };
    let mut block = ItemImpl {
        defaultness: None,
        unsafety: None,
        trait_span: None,
        generics_count: 0,
        generics_span: sp(),
        self_ty: path_ty("Widget"),
        items: vec![ImplItem::MethodItem(method)],
        span: sp(),
    };
    let opts = bag(&mut st, vec![]);
    block.macro_parse(&mut st, opts).unwrap();
    let prepared = match block.items.into_iter().next().unwrap() {
        ImplItem::MethodItem(m) => m,
        _ => panic!("expected a method"),
    };
    let (class, js_class) = prepared.class_marker.clone().unwrap();
    assert_eq!(class, "Widget");
    assert_eq!(js_class, "Widget");
    prepared.macro_parse(&mut program, &class, &js_class, &mut st).unwrap();
    assert!(assert_all_attrs_checked(&st));
    let ex = &program.exports[0];
    assert_eq!(ex.rust_name, "get");
    assert_eq!(ex.rust_class, Some("Widget".to_string()));
    assert_eq!(ex.js_class, Some("Widget".to_string()));
    assert_eq!(ex.method_self, Some(MethodSelf::RefShared));
    // `Self` in the return type is replaced by the class name
    assert_eq!(ex.function.ret, Some(path_ty("Widget")));
    match &ex.method_kind {
        MethodKind::Operation(op) => assert!(!op.is_static),
        _ => panic!("expected an operation"),
    }
}

#[test]
fn impl_blocks_reject_consts_and_trait_impls() {
    let mut st = state(false);
    let mut block = ItemImpl {
        defaultness: None,
        unsafety: None,
        trait_span: Some(sp()),
        generics_count: 0,
        generics_span: sp(),
        self_ty: path_ty("Widget"),
        items: vec![],
        span: sp(),
    };
    let opts = bag(&mut st, vec![]);
    assert!(block.macro_parse(&mut st, opts).is_err());
    let mut block = ItemImpl {
        defaultness: None,
        unsafety: None,
        trait_span: None,
        generics_count: 0,
        generics_span: sp(),
        self_ty: path_ty("Widget"),
        items: vec![ImplItem::ConstItem(sp())],
        span: sp(),
    };
    let opts = bag(&mut st, vec![]);
    assert!(block.macro_parse(&mut st, opts).is_err());
}

#[test]
fn getter_and_indexing_attributes_pick_the_operation() {
    let mut st = state(false);
    let mut b = bag(&mut st, vec![raw("getter", AttrValue::Ident("x".to_string(), sp()))]);
    assert_eq!(operation_kind(&mut b), OperationKind::Getter(Some("x".to_string())));
    let mut b = bag(
        &mut st,
        vec![raw("setter", AttrValue::NoValue), raw("indexing_deleter", AttrValue::NoValue)],
    );
    assert_eq!(operation_kind(&mut b), OperationKind::IndexingDeleter);
    let mut b = bag(&mut st, vec![]);
    assert_eq!(operation_kind(&mut b), OperationKind::Regular);
}

#[test]
fn typescript_custom_section_takes_string_constants() {
    let mut st = state(false);
    let mut program = Program::new();
    let c = ItemConst {
        attrs: vec![],
        str_value: Some("export type Pair = [number, number];".to_string()),
        span: sp(),
    };
    let opts = bag(&mut st, vec![raw("typescript_custom_section", AttrValue::NoValue)]);
    c.macro_parse(&mut program, &mut st, opts).unwrap();
    assert_eq!(
        program.typescript_custom_sections,
        vec!["export type Pair = [number, number];".to_string()]
    );
    // a constant without the attribute is refused
    let c = ItemConst { attrs: vec![], str_value: Some("x".to_string()), span: sp() };
    let opts = bag(&mut st, vec![]);
    assert!(c.macro_parse(&mut program, &mut st, opts).is_err());
}

#[test]
fn lifetimes_are_rejected_in_signatures() {
    let mut st = state(false);
    let f = ItemFn {
        ident: "f".to_string(),
        ident_span: sp(),
        vis_pub: true,
        constness: None,
        unsafety: None,
        decl: FnDecl {
            span: sp(),
            generics_count: 0,
            generics_span: sp(),
            inputs: vec![FnArg::Captured {
                name: "x".to_string(),
                ty: Type::Reference {
                    lifetime: true,
                    mutable: false,
                    elem: Box::new(path_ty("str")),
                },
            }],
            output: None,
            variadic: None,
        },
        attrs: vec![],
        span: sp(),
    };
    let opts = bag(&mut st, vec![]);
    assert!(f.convert(&mut st, opts).is_err());
}

#[test]
fn doc_comments_ride_along() {
    let mut st = state(false);
    let mut program = Program::new();
    let f = ItemFn {
        ident: "f".to_string(),
        ident_span: sp(),
        vis_pub: true,
        constness: None,
        unsafety: None,
        decl: nullary_decl(),
        attrs: vec![
            Attribute {
                path: vec!["doc".to_string()],
                span: sp(),
                body: AttrBody::EmptyBody,
                literals: vec!["\" Runs it.\"".to_string()],
            },
            Attribute {
                path: vec!["no_mangle".to_string()],
                span: sp(),
                body: AttrBody::EmptyBody,
                literals: vec![],
            },
        ],
        span: sp(),
    };
    Item::Fn(f).macro_parse(&mut program, &mut st, None).unwrap();
    assert_eq!(program.exports[0].comments, vec!["\" Runs it.\"".to_string()]);
    // the lowered function no longer carries the linkage attribute
    assert!(program.exports[0]
        .function
        .rust_attrs
        .iter()
        .all(|a| a.path != vec!["no_mangle".to_string()]));
}

#[test]
fn foreign_type_collects_extends_and_vendor_prefixes() {
    let mut st = state(false);
    let t = ForeignItemType { ident: "Element".to_string(), vis_pub: true, attrs: vec![], span: sp() };
    let path = |name: &str| Path {
        leading_colon: false,
        segments: vec![PathSegment { ident: name.to_string(), arguments: PathArguments::NoArgs }],
    };
    let opts = bag(
        &mut st,
        vec![
            raw("extends", AttrValue::PathValue(path("Node"), sp())),
            raw("vendor_prefix", AttrValue::Ident("webkit".to_string(), sp())),
            raw("extends", AttrValue::Ident("Object".to_string(), sp())),
            raw("is_type_of", AttrValue::Expr("|x| true".to_string(), sp())),
        ],
    );
    match t.convert(&mut st, opts).unwrap() {
        ImportKind::Type(ty) => {
            assert_eq!(ty.js_name, "Element");
            assert!(ty.instanceof_shim.starts_with("__wbg_instanceof_Element_"));
            assert_eq!(ty.extends.len(), 2);
            assert_eq!(ty.extends[0].segments[0].ident, "Node");
            assert_eq!(ty.extends[1].segments[0].ident, "Object");
            assert_eq!(ty.vendor_prefixes, vec!["webkit".to_string()]);
            assert_eq!(ty.is_type_of, Some("|x| true".to_string()));
        }
        _ => panic!("expected a type import"),
    }
    assert!(assert_all_attrs_checked(&st));
}

#[test]
fn imports_carry_their_namespace() {
    let mut st = state(false);
    let mut program = Program::new();
    let f = ForeignItemFn {
        ident: "now".to_string(),
        ident_span: sp(),
        vis_pub: true,
        decl: nullary_decl(),
        attrs: vec![wb_attr(vec![raw(
            "js_namespace",
            AttrValue::Ident("Date".to_string(), sp()),
        )])],
        span: sp(),
    };
    ForeignItem::ForeignFn(f)
        .macro_parse(&mut program, &mut st, ImportModule::NoModule)
        .unwrap();
    assert_eq!(program.imports[0].js_namespace, Some("Date".to_string()));
    assert!(assert_all_attrs_checked(&st));
}

#[test]
fn unsupported_items_are_rejected() {
    let mut st = state(false);
    let mut program = Program::new();
    assert!(Item::Other(sp()).macro_parse(&mut program, &mut st, None).is_err());
}

#[test]
fn method_import_demands_a_shared_reference_to_a_plain_path() {
    // a receiver taken by mutable reference
    let mut st = state(false);
    let m = ForeignItemFn {
        ident: "get".to_string(),
        ident_span: sp(),
        vis_pub: true,
        decl: FnDecl {
            span: sp(),
            generics_count: 0,
            generics_span: sp(),
            inputs: vec![FnArg::Captured {
                name: "this".to_string(),
                ty: Type::Reference {
                    lifetime: false,
                    mutable: true,
                    elem: Box::new(path_ty("Element")),
                },
            }],
            output: None,
            variadic: None,
        },
        attrs: vec![],
        span: sp(),
    };
    let opts = bag(&mut st, vec![raw("method", AttrValue::NoValue)]);
    assert!(m.convert(&mut st, opts, &ImportModule::NoModule).is_err());
    // no receiver at all
    let m = ForeignItemFn {
        ident: "get".to_string(),
        ident_span: sp(),
        vis_pub: true,
        decl: nullary_decl(),
        attrs: vec![],
        span: sp(),
    };
    let opts = bag(&mut st, vec![raw("method", AttrValue::NoValue)]);
    assert!(m.convert(&mut st, opts, &ImportModule::NoModule).is_err());
}

#[test]
fn generics_are_rejected_on_functions_and_structs() {
    let mut st = state(false);
    let f = ItemFn {
        ident: "f".to_string(),
        ident_span: sp(),
        vis_pub: true,
        constness: None,
        unsafety: None,
        decl: FnDecl {
            span: sp(),
            generics_count: 1,
            generics_span: sp(),
            inputs: vec![],
            output: None,
            variadic: None,
        },
        attrs: vec![],
        span: sp(),
    };
    let opts = bag(&mut st, vec![]);
    assert!(f.convert(&mut st, opts).is_err());
    let s = ItemStruct {
        ident: "S".to_string(),
        generics_count: 1,
        generics_span: sp(),
        fields: vec![],
        attrs: vec![],
        span: sp(),
    };
    let opts = bag(&mut st, vec![]);
    assert!(s.convert(&mut st, opts).is_err());
}

#[test]
fn every_offending_signature_slot_gets_its_own_diagnostic() {
    let lt_ref = |name: &str| FnArg::Captured {
        name: name.to_string(),
        ty: Type::Reference { lifetime: true, mutable: false, elem: Box::new(path_ty("str")) },
    };
    let decl = FnDecl {
        span: sp(),
        generics_count: 0,
        generics_span: sp(),
        inputs: vec![lt_ref("a"), FnArg::Captured { name: "b".to_string(), ty: path_ty("u32") }, lt_ref("c")],
        output: Some(Type::Reference {
            lifetime: true,
            mutable: false,
            elem: Box::new(path_ty("str")),
        }),
        variadic: None,
    };
    let err = assert_no_lifetimes(&decl).unwrap_err();
    assert_eq!(err.errors.len(), 3);
}

#[test]
fn inline_js_imports_point_at_their_snippet() {
    let mut st = state(false);
    let mut program = Program::new();
    program.inline_js.push("first()".to_string());
    let f = ForeignItemFn {
        ident: "go".to_string(),
        ident_span: sp(),
        vis_pub: true,
        decl: nullary_decl(),
        attrs: vec![],
        span: sp(),
    };
    let block = ItemForeignMod {
        abi_name: None,
        abi_span: sp(),
        attrs: vec![],
        items: vec![ForeignItem::ForeignFn(f)],
        span: sp(),
    };
    let opts = bag(&mut st, vec![raw("inline_js", AttrValue::Str("go()".to_string(), sp()))]);
    block.macro_parse(&mut program, &mut st, opts).unwrap();
    assert_eq!(program.inline_js, vec!["first()".to_string(), "go()".to_string()]);
    assert_eq!(program.imports[0].module, ImportModule::Inline(1, sp()));
}

#[test]
fn a_constructor_import_must_return_a_bare_path() {
    let mut st = state(false);
    let f = ForeignItemFn {
        ident: "make".to_string(),
        ident_span: sp(),
        vis_pub: true,
        decl: FnDecl {
            span: sp(),
            generics_count: 0,
            generics_span: sp(),
            inputs: vec![],
            output: Some(Type::Tuple { elems: vec![path_ty("A"), path_ty("B")] }),
            variadic: None,
        },
        attrs: vec![],
        span: sp(),
    };
    let opts = bag(&mut st, vec![raw("constructor", AttrValue::NoValue)]);
    assert!(f.convert(&mut st, opts, &ImportModule::NoModule).is_err());
    // and a well-shaped one is owed success
    let mut st = state(false);
    let f = ForeignItemFn {
        ident: "make".to_string(),
        ident_span: sp(),
        vis_pub: true,
        decl: FnDecl {
            span: sp(),
            generics_count: 0,
            generics_span: sp(),
            inputs: vec![],
            output: Some(path_ty("Widget")),
            variadic: None,
        },
        attrs: vec![],
        span: sp(),
    };
    let opts = bag(&mut st, vec![raw("constructor", AttrValue::NoValue)]);
    match f.convert(&mut st, opts, &ImportModule::NoModule).unwrap() {
        ImportKind::Function(fun) => match fun.kind {
            ImportFunctionKind::Method { class, ty, kind } => {
                assert_eq!(class, "Widget");
                assert_eq!(ty, path_ty("Widget"));
                assert!(matches!(kind, MethodKind::Constructor));
            }
            _ => panic!("expected a constructor import"),
        },
        _ => panic!("expected a function import"),
    }
}

#[test]
fn const_and_unsafe_methods_are_rejected() {
    let mut st = state(false);
    let mut program = Program::new();
    let mk = |constness: Option<Span>, unsafety: Option<Span>| ImplItemMethod {
        ident: "m".to_string(),
        ident_span: sp(),
        vis_pub: true,
        defaultness: None,
        constness,
        unsafety,
        decl: nullary_decl(),
        attrs: vec![],
        span: sp(),
        class_marker: None,
    };
    let class = "W".to_string();
    assert!(mk(Some(sp()), None).macro_parse(&mut program, &class, &class, &mut st).is_err());
    assert!(mk(None, Some(sp())).macro_parse(&mut program, &class, &class, &mut st).is_err());
}
