//! The attribute vocabulary: parsing, the consumed-flag discipline, and the
//! audit counters.

use bindgen_core::ast::{AttrList, AttrValue, Attribute, AttrBody, RawAttr, Span};
use bindgen_core::attrs::{
    assert_all_attrs_checked, parse_attr, reset_attrs_used, AttributeParseState, BindgenAttr,
    BindgenAttrs,
};

fn sp() -> Span {
    Span { lo: 0, hi: 0 }
}

fn raw(kw: &str, value: AttrValue) -> RawAttr {
    RawAttr { keyword: kw.to_string(), span: sp(), value }
}

fn state(strict: bool) -> AttributeParseState {
    AttributeParseState { parsed: 0, checks: 0, strict }
}

#[test]
fn parse_attr_accepts_bare_keywords() {
    let a = parse_attr(raw("catch", AttrValue::NoValue)).unwrap();
    assert_eq!(a, BindgenAttr::Catch(sp()));
    let a = parse_attr(raw("structural", AttrValue::NoValue)).unwrap();
    assert_eq!(a, BindgenAttr::StructuralDispatch(sp()));
    let a = parse_attr(raw("final", AttrValue::NoValue)).unwrap();
    assert_eq!(a, BindgenAttr::Final(sp()));
}

#[test]
fn parse_attr_rejects_unknown_keyword() {
    assert!(parse_attr(raw("wobble", AttrValue::NoValue)).is_err());
}

#[test]
fn parse_attr_checks_payload_shapes() {
    // A bare keyword refuses a payload.
    assert!(parse_attr(raw("catch", AttrValue::Ident("x".to_string(), sp()))).is_err());
    // An identifier keyword demands one.
    assert!(parse_attr(raw("static_method_of", AttrValue::NoValue)).is_err());
    let a = parse_attr(raw("static_method_of", AttrValue::Ident("Foo".to_string(), sp()))).unwrap();
    assert_eq!(a, BindgenAttr::StaticMethodOf(sp(), "Foo".to_string()));
    // A string keyword takes a literal or a bare identifier.
    let a = parse_attr(raw("module", AttrValue::Str("./x".to_string(), sp()))).unwrap();
    assert_eq!(a, BindgenAttr::Module(sp(), "./x".to_string(), sp()));
    let a = parse_attr(raw("js_name", AttrValue::Ident("foo".to_string(), sp()))).unwrap();
    assert_eq!(a, BindgenAttr::JsName(sp(), "foo".to_string(), sp()));
    // An optional-identifier keyword takes either form.
    let a = parse_attr(raw("getter", AttrValue::NoValue)).unwrap();
    assert_eq!(a, BindgenAttr::Getter(sp(), None));
    let a = parse_attr(raw("getter", AttrValue::Ident("x".to_string(), sp()))).unwrap();
    assert_eq!(a, BindgenAttr::Getter(sp(), Some("x".to_string())));
}

#[test]
fn find_collects_and_strips_wasm_bindgen_attributes() {
    let mut st = state(false);
    let mut attrs = vec![
        Attribute {
            path: vec!["doc".to_string()],
            span: sp(),
            body: AttrBody::EmptyBody,
            literals: vec!["\" hi\"".to_string()],
        },
        Attribute {
            path: vec!["wasm_bindgen".to_string()],
            span: sp(),
            body: AttrBody::GroupBody(
                AttrList { paren: true, attrs: vec![raw("catch", AttrValue::NoValue)] },
                false,
            ),
            literals: vec![],
        },
    ];
    let bag = BindgenAttrs::find(&mut st, &mut attrs).unwrap();
    assert_eq!(bag.attrs.len(), 1);
    assert_eq!(bag.attrs[0], (false, BindgenAttr::Catch(sp())));
    assert_eq!(attrs.len(), 1);
    assert_eq!(attrs[0].path, vec!["doc".to_string()]);
    // the returned bag is open, the inner group bag was audited
    assert_eq!(st.parsed, 2);
    assert_eq!(st.checks, 1);
}

#[test]
fn find_rejects_malformed_attribute_bodies() {
    let mut st = state(false);
    let mut attrs = vec![Attribute {
        path: vec!["wasm_bindgen".to_string()],
        span: sp(),
        body: AttrBody::OtherBody,
        literals: vec![],
    }];
    assert!(BindgenAttrs::find(&mut st, &mut attrs).is_err());
    let mut attrs = vec![Attribute {
        path: vec!["wasm_bindgen".to_string()],
        span: sp(),
        body: AttrBody::GroupBody(AttrList { paren: false, attrs: vec![] }, false),
        literals: vec![],
    }];
    assert!(BindgenAttrs::find(&mut st, &mut attrs).is_err());
}

#[test]
fn accessors_mark_the_first_match_consumed() {
    let mut st = state(true);
    let mut bag = BindgenAttrs::parse(
        &mut st,
        AttrList {
            paren: true,
            attrs: vec![raw("catch", AttrValue::NoValue), raw("variadic", AttrValue::NoValue)],
        },
    )
    .unwrap();
    assert_eq!(bag.catch(), Some(sp()));
    assert_eq!(bag.variadic(), Some(sp()));
    assert!(bag.attrs.iter().all(|e| e.0));
    // every attribute consumed: accepted even in strict mode
    assert!(bag.check_used(&mut st).is_ok());
    assert_eq!(st.parsed, st.checks);
}

#[test]
fn strict_mode_reports_unconsumed_attributes() {
    let mut st = state(true);
    let bag = BindgenAttrs::parse(
        &mut st,
        AttrList { paren: true, attrs: vec![raw("catch", AttrValue::NoValue)] },
    )
    .unwrap();
    assert!(bag.check_used(&mut st).is_err());
    // counters balanced either way
    assert!(assert_all_attrs_checked(&st));
}

#[test]
fn non_strict_mode_accepts_unconsumed_attributes() {
    let mut st = state(false);
    let bag = BindgenAttrs::parse(
        &mut st,
        AttrList { paren: true, attrs: vec![raw("catch", AttrValue::NoValue)] },
    )
    .unwrap();
    assert!(bag.check_used(&mut st).is_ok());
}

#[test]
fn reset_clears_the_audit_counters() {
    let mut st = state(false);
    let bag = BindgenAttrs::new(&mut st);
    assert!(!assert_all_attrs_checked(&st));
    let _ = bag.check_used(&mut st);
    assert!(assert_all_attrs_checked(&st));
    reset_attrs_used(&mut st);
    assert_eq!(st.parsed, 0);
    assert_eq!(st.checks, 0);
}
