//! Symbol mangling and the text utilities under it.

use bindgen_core::ast::ImportModule;
use bindgen_core::ast::Span;
use bindgen_core::jsgen::JsBuilder;
use bindgen_core::symbols::{
    import_function_shim, instanceof_shim, static_accessor_shim, struct_field_get,
    struct_field_set,
};
use bindgen_core::text::{dec_string, filter_alphanumeric, hex16, join_comma, trim};

fn sp() -> Span {
    Span { lo: 0, hi: 0 }
}

#[test]
fn field_accessor_symbols_are_deterministic() {
    assert_eq!(struct_field_get("Foo", "bar"), "__wbg_get_Foo_bar");
    assert_eq!(struct_field_set("Foo", "bar"), "__wbg_set_Foo_bar");
}

#[test]
fn import_shims_filter_the_name_and_hash_the_identity() {
    let m = ImportModule::Named("./x".to_string(), sp());
    let a = import_function_shim("foo_bar!2", &None, "foo_bar", &m);
    assert!(a.starts_with("__wbg_foobar2_"));
    assert_eq!(a.len(), "__wbg_foobar2_".len() + 16);
    let b = import_function_shim("foo_bar!2", &None, "foo_bar", &m);
    assert_eq!(a, b);
}

#[test]
fn import_shims_distinguish_namespaces_and_modules() {
    let m = ImportModule::Named("./x".to_string(), sp());
    let free = import_function_shim("f", &None, "f", &m);
    let method = import_function_shim("f", &Some("Widget".to_string()), "f", &m);
    assert_ne!(free, method);
    let other = import_function_shim("f", &None, "f", &ImportModule::RawNamed("./x".to_string(), sp()));
    assert_ne!(free, other);
}

#[test]
fn instanceof_and_static_shims_carry_their_prefixes() {
    let t = instanceof_shim("Element");
    assert!(t.starts_with("__wbg_instanceof_Element_"));
    assert_eq!(t.len(), "__wbg_instanceof_Element_".len() + 16);
    let s = static_accessor_shim("G", "G", &ImportModule::NoModule);
    assert!(s.starts_with("__wbg_static_accessor_G_"));
    assert_eq!(s, static_accessor_shim("G", "G", &ImportModule::NoModule));
}

#[test]
fn decimal_and_hexadecimal_rendering() {
    assert_eq!(dec_string(0), "0");
    assert_eq!(dec_string(42), "42");
    assert_eq!(dec_string(1234567), "1234567");
    assert_eq!(hex16(0), "0000000000000000");
    assert_eq!(hex16(0xdeadbeef), "00000000deadbeef");
    assert_eq!(hex16(u64::MAX), "ffffffffffffffff");
}

#[test]
fn alphanumeric_filtering_keeps_ascii_letters_and_digits() {
    assert_eq!(filter_alphanumeric("foo_bar!2"), "foobar2");
    assert_eq!(filter_alphanumeric(""), "");
    assert_eq!(filter_alphanumeric("__"), "");
}

#[test]
fn trimming_and_joining() {
    assert_eq!(trim("  a b \t"), "a b");
    assert_eq!(trim("\n\n"), "");
    assert_eq!(trim("x"), "x");
    assert_eq!(join_comma(&vec!["a".to_string(), "b".to_string()]), "a, b");
    assert_eq!(join_comma(&vec![]), "");
}

#[test]
fn prelude_lines_are_normalised() {
    let mut js = JsBuilder::new(vec![]);
    js.prelude("  one\r\ntwo  ");
    js.prelude("three");
    assert_eq!(js.prelude, "one\ntwo\nthree\n");
    js.finally("free(a);\nfree(b);");
    assert_eq!(js.finally, "free(a);\nfree(b);\n");
    assert_eq!(js.tmp(), 0);
    assert_eq!(js.tmp(), 1);
}
