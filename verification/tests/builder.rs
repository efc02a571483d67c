//! The adapter builder: body layout, synthetic parameters, the return
//! shapes, the typescript signature and the doc header.

use bindgen_core::jsgen::{
    Binding, Builder, CallInvoker, Context, SlotEvaluator, SlotExpr, TypescriptArg, ValType,
    WebidlFunction,
};

fn ctx() -> Context {
    Context::new(false, vec![0, 1, 2, 3])
}

fn slot(i: u32, ty: &str) -> SlotExpr {
    SlotExpr::ArgSlot(i, ty.to_string())
}

#[test]
fn plain_adapter_with_no_return() {
    let mut b = Builder::new();
    let mut cx = ctx();
    let binding: Binding<SlotExpr, SlotExpr> = Binding {
        wasm_ty: 1,
        incoming: vec![slot(0, "number")],
        outgoing: vec![],
        return_via_outptr: None,
    };
    let webidl: WebidlFunction<()> = WebidlFunction { params: vec![()], result: None };
    let mut eval = SlotEvaluator {};
    let mut invoke = CallInvoker { target: "wasm.f".to_string() };
    let out = b
        .process(&mut cx, &binding, &webidl, true, &None, &mut eval, &mut invoke)
        .unwrap();
    assert_eq!(out, "(arg0) {\nwasm.f(arg0);\n}");
    assert_eq!(b.typescript_signature(), "(arg0: number): void");
    assert_eq!(b.js_doc_comments(), "@param {number} arg0\n");
}

#[test]
fn adapter_with_a_returned_expression() {
    let mut b = Builder::new();
    let mut cx = ctx();
    let binding: Binding<SlotExpr, SlotExpr> = Binding {
        wasm_ty: 1,
        incoming: vec![slot(0, "string")],
        outgoing: vec![slot(0, "MyType")],
        return_via_outptr: None,
    };
    let webidl: WebidlFunction<()> = WebidlFunction { params: vec![()], result: Some(()) };
    let mut eval = SlotEvaluator {};
    let mut invoke = CallInvoker { target: "wasm.parse".to_string() };
    let out = b
        .process(&mut cx, &binding, &webidl, true, &None, &mut eval, &mut invoke)
        .unwrap();
    assert_eq!(out, "(arg0) {\nconst ret = wasm.parse(arg0);\nreturn ret;\n}");
    assert_eq!(b.typescript_signature(), "(arg0: string): MyType");
    assert_eq!(b.js_doc_comments(), "@param {string} arg0\n@returns {MyType}");
}

#[test]
fn catching_adapter_wraps_the_call() {
    let mut b = Builder::new();
    let mut cx = ctx();
    b.catch(&mut cx, true).unwrap();
    assert!(cx.exposed_handle_error);
    let binding: Binding<SlotExpr, SlotExpr> = Binding {
        wasm_ty: 1,
        incoming: vec![slot(0, "string")],
        outgoing: vec![slot(0, "MyType")],
        return_via_outptr: None,
    };
    let webidl: WebidlFunction<()> = WebidlFunction { params: vec![()], result: Some(()) };
    let mut eval = SlotEvaluator {};
    let mut invoke = CallInvoker { target: "wasm.parse".to_string() };
    let out = b
        .process(&mut cx, &binding, &webidl, true, &None, &mut eval, &mut invoke)
        .unwrap();
    assert_eq!(
        out,
        "(arg0) {\ntry {\nconst ret = wasm.parse(arg0);\nreturn ret;\n} catch (e) {\n handleError(e)\n}\n}"
    );
}

#[test]
fn multi_value_return_reads_through_the_return_pointer() {
    let mut b = Builder::new();
    let mut cx = ctx();
    let binding: Binding<SlotExpr, SlotExpr> = Binding {
        wasm_ty: 3,
        incoming: vec![slot(0, "number"), slot(1, "number"), slot(2, "number")],
        outgoing: vec![slot(0, "number")],
        return_via_outptr: Some(vec![ValType::I32, ValType::I32]),
    };
    let webidl: WebidlFunction<()> = WebidlFunction { params: vec![(), (), ()], result: Some(()) };
    let mut eval = SlotEvaluator {};
    let mut invoke = CallInvoker { target: "wasm.f".to_string() };
    let out = b
        .process(&mut cx, &binding, &webidl, true, &None, &mut eval, &mut invoke)
        .unwrap();
    assert_eq!(
        out,
        "(arg0, arg1) {\nconst retptr = 8;\nconst ret = wasm.f(retptr, arg0, arg1);\nconst memi32 = getInt32Memory();\nreturn memi32[retptr / 4 + 0];\n}"
    );
    assert!(cx.exposed_int32_memory);
    assert!(!cx.exposed_f64_memory);
}

#[test]
fn consuming_method_nulls_the_receiver_pointer() {
    let mut b = Builder::new();
    let mut cx = ctx();
    b.method(true);
    let binding: Binding<SlotExpr, SlotExpr> = Binding {
        wasm_ty: 2,
        incoming: vec![slot(0, "MyType"), slot(1, "number")],
        outgoing: vec![],
        return_via_outptr: None,
    };
    let webidl: WebidlFunction<()> = WebidlFunction { params: vec![(), ()], result: None };
    let mut eval = SlotEvaluator {};
    let mut invoke = CallInvoker { target: "wasm.m".to_string() };
    let out = b
        .process(&mut cx, &binding, &webidl, true, &None, &mut eval, &mut invoke)
        .unwrap();
    assert_eq!(out, "(arg0) {\nconst ptr = this.ptr;\nthis.ptr = 0;\nwasm.m(ptr, arg0);\n}");
}

#[test]
fn borrowed_method_passes_the_pointer_through() {
    let mut b = Builder::new();
    let mut cx = ctx();
    b.method(false);
    let binding: Binding<SlotExpr, SlotExpr> = Binding {
        wasm_ty: 2,
        incoming: vec![slot(0, "MyType"), slot(1, "number")],
        outgoing: vec![],
        return_via_outptr: None,
    };
    let webidl: WebidlFunction<()> = WebidlFunction { params: vec![(), ()], result: None };
    let mut eval = SlotEvaluator {};
    let mut invoke = CallInvoker { target: "wasm.m".to_string() };
    let out = b
        .process(&mut cx, &binding, &webidl, true, &None, &mut eval, &mut invoke)
        .unwrap();
    assert_eq!(out, "(arg0) {\nwasm.m(this.ptr, arg0);\n}");
}

#[test]
fn outgoing_adapter_writes_an_aggregate_back() {
    let mut b = Builder::new();
    let mut cx = ctx();
    let binding: Binding<SlotExpr, SlotExpr> = Binding {
        wasm_ty: 1,
        // the leading outgoing instruction stands for the return pointer and
        // is skipped; the adapter's own parameter count comes from the type
        // table (index 1: one parameter)
        incoming: vec![SlotExpr::TextExpr("passStringToWasm(ret)".to_string())],
        outgoing: vec![slot(0, "number")],
        return_via_outptr: Some(vec![ValType::I32, ValType::I32]),
    };
    let webidl: WebidlFunction<()> = WebidlFunction { params: vec![()], result: Some(()) };
    let mut eval = SlotEvaluator {};
    let mut invoke = CallInvoker { target: "imported".to_string() };
    let r = b.process(&mut cx, &binding, &webidl, false, &None, &mut eval, &mut invoke);
    // one host expression cannot fill two return slots
    assert_eq!(r, Err(bindgen_core::jsgen::GenError::ReturnCountMismatch));
}

#[test]
fn outgoing_adapter_returns_a_single_value() {
    let mut b = Builder::new();
    let mut cx = ctx();
    let binding: Binding<SlotExpr, SlotExpr> = Binding {
        wasm_ty: 1,
        incoming: vec![slot(0, "number")],
        outgoing: vec![slot(0, "number")],
        return_via_outptr: None,
    };
    let webidl: WebidlFunction<()> = WebidlFunction { params: vec![()], result: Some(()) };
    let mut eval = SlotEvaluator {};
    let mut invoke = CallInvoker { target: "imported".to_string() };
    let out = b
        .process(&mut cx, &binding, &webidl, false, &None, &mut eval, &mut invoke)
        .unwrap();
    assert_eq!(out, "(arg0) {\nconst ret = imported(arg0);\nreturn ret;\n}");
}

#[test]
fn explicit_argument_names_are_used() {
    let mut b = Builder::new();
    let mut cx = ctx();
    let binding: Binding<SlotExpr, SlotExpr> = Binding {
        wasm_ty: 1,
        incoming: vec![slot(0, "string")],
        outgoing: vec![],
        return_via_outptr: None,
    };
    let webidl: WebidlFunction<()> = WebidlFunction { params: vec![()], result: None };
    let mut eval = SlotEvaluator {};
    let mut invoke = CallInvoker { target: "wasm.f".to_string() };
    let names = Some(vec!["message".to_string()]);
    let out = b
        .process(&mut cx, &binding, &webidl, true, &names, &mut eval, &mut invoke)
        .unwrap();
    assert_eq!(out, "(message) {\nwasm.f(message);\n}");
}

#[test]
fn debug_mode_logs_unexpected_exceptions() {
    let mut b = Builder::new();
    let mut cx = Context::new(true, vec![0, 1]);
    let binding: Binding<SlotExpr, SlotExpr> = Binding {
        wasm_ty: 1,
        incoming: vec![slot(0, "number")],
        outgoing: vec![],
        return_via_outptr: None,
    };
    let webidl: WebidlFunction<()> = WebidlFunction { params: vec![()], result: None };
    let mut eval = SlotEvaluator {};
    let mut invoke = CallInvoker { target: "wasm.f".to_string() };
    let out = b
        .process(&mut cx, &binding, &webidl, true, &None, &mut eval, &mut invoke)
        .unwrap();
    assert!(cx.exposed_log_error);
    assert_eq!(out, "(arg0) {\ntry {\nwasm.f(arg0);\n} catch (e) {\n logError(e)\n}\n}");
}

#[test]
fn invalid_aggregate_return_type_is_an_error() {
    let mut b = Builder::new();
    let mut cx = ctx();
    let binding: Binding<SlotExpr, SlotExpr> = Binding {
        wasm_ty: 2,
        incoming: vec![slot(0, "number"), slot(1, "number")],
        outgoing: vec![slot(0, "bigint")],
        return_via_outptr: Some(vec![ValType::I64]),
    };
    let webidl: WebidlFunction<()> = WebidlFunction { params: vec![(), ()], result: Some(()) };
    let mut eval = SlotEvaluator {};
    let mut invoke = CallInvoker { target: "wasm.f".to_string() };
    let r = b.process(&mut cx, &binding, &webidl, true, &None, &mut eval, &mut invoke);
    assert_eq!(r, Err(bindgen_core::jsgen::GenError::InvalidAggregateReturnType));
}

fn ts(name: &str, ty: &str, optional: bool) -> TypescriptArg {
    TypescriptArg { ty: ty.to_string(), name: name.to_string(), optional }
}

fn sig_builder(args: Vec<TypescriptArg>, ret: Option<TypescriptArg>) -> Builder {
    let mut b = Builder::new();
    b.ts_args = args;
    b.ts_ret = ret;
    b
}

#[test]
fn trailing_optional_arguments_use_the_question_suffix() {
    let b = sig_builder(vec![ts("a", "string", false), ts("b", "number", true)], None);
    assert_eq!(b.typescript_signature(), "(a: string, b?: number): void");
}

#[test]
fn optional_before_required_is_spelt_with_undefined() {
    let b = sig_builder(
        vec![ts("a", "string", true), ts("b", "number", false), ts("c", "bool", true)],
        None,
    );
    assert_eq!(b.typescript_signature(), "(a: string | undefined, b: number, c?: bool): void");
}

#[test]
fn optional_return_is_spelt_with_undefined() {
    let b = sig_builder(vec![], Some(ts("r", "number", true)));
    assert_eq!(b.typescript_signature(), "(): number | undefined");
}

#[test]
fn constructors_list_no_return_type() {
    let mut b = sig_builder(vec![ts("a", "number", false)], Some(ts("r", "Widget", false)));
    b.constructor("Widget");
    assert_eq!(b.typescript_signature(), "(a: number)");
}

#[test]
fn doc_header_lists_every_parameter_and_the_return() {
    let b = sig_builder(
        vec![ts("a", "string", false), ts("b", "number", true)],
        Some(ts("r", "MyType", false)),
    );
    assert_eq!(
        b.js_doc_comments(),
        "@param {string} a\n@param {number | undefined} b\n@returns {MyType}"
    );
}

#[test]
fn finalize_nests_catch_inside_log_inside_finally() {
    let mut b = Builder::new();
    b.catch = true;
    b.finally = "free(x);\n".to_string();
    let out = b.finalize(true, "f()");
    assert_eq!(
        out,
        "() {\ntry {\ntry {\ntry {\nf();\n} catch (e) {\n handleError(e)\n}\n} catch (e) {\n logError(e)\n}\n} finally {\nfree(x);\n}\n}"
    );
}

#[test]
fn outgoing_aggregate_write_back_fills_the_caller_pointer() {
    let mut b = Builder::new();
    let mut cx = ctx();
    let binding: Binding<SlotExpr, SlotExpr> = Binding {
        wasm_ty: 1,
        incoming: vec![SlotExpr::Split {
            first: "ret >>> 0".to_string(),
            second: "ret & 0xffff".to_string(),
            ty: "Pair".to_string(),
        }],
        outgoing: vec![slot(0, "number")],
        return_via_outptr: Some(vec![ValType::I32, ValType::I32]),
    };
    let webidl: WebidlFunction<()> = WebidlFunction { params: vec![()], result: Some(()) };
    let mut eval = SlotEvaluator {};
    let mut invoke = CallInvoker { target: "imported".to_string() };
    let out = b
        .process(&mut cx, &binding, &webidl, false, &None, &mut eval, &mut invoke)
        .unwrap();
    assert_eq!(
        out,
        "(arg0) {\nconst ret = imported();\nconst ret0 = ret >>> 0;\nconst ret1 = ret & 0xffff;\ngetInt32Memory()[arg0 / 4 + 0] = ret0;\ngetInt32Memory()[arg0 / 4 + 1] = ret1;\n}"
    );
    assert!(cx.exposed_int32_memory);
}
