//! The adapter builder: assembles the host-language source of one function
//! shim out of a binding's instruction streams, together with its typescript
//! signature and its doc header.
//!
//! The instruction evaluators and the invocation are capabilities the caller
//! supplies; the builder owes its caller the fixed layout of the emitted
//! body, the synthetic-parameter protocol, and the return-shape invariant:
//! an emitted adapter has exactly one of no return, a returned expression,
//! or a return-pointer write-back.

use crate::text::join_comma;
use crate::text::norm_lines;
use crate::text::spec_join;
use crate::text::spec_trim;
use crate::text::trim;
use vstd::prelude::*;
use vstd::string::StrSliceExecFns;
use vstd::string::StringExecFns;

verus! {

/// One value type of the native virtual machine's stack.
#[derive(Clone, Copy, Debug, PartialEq, Eq, Structural)]
pub enum ValType {
    I32,
    I64,
    F32,
    F64,
    V128,
    Externref,
}

/// One binding: the native signature's type index, the two instruction
/// streams, and the value types returned through the return pointer, if any.
#[derive(Debug)]
pub struct Binding<I, O> {
    /// The index of the native function type in the module's type table.
    pub wasm_ty: usize,
    /// The instructions lowering host values into native values.
    pub incoming: Vec<I>,
    /// The instructions lifting native values into host values.
    pub outgoing: Vec<O>,
    /// The aggregate return protocol: the types written through the return
    /// pointer.
    pub return_via_outptr: Option<Vec<ValType>>,
}

/// The host-observable signature: parameter types and an optional result.
#[derive(Debug)]
pub struct WebidlFunction<T> {
    pub params: Vec<T>,
    pub result: Option<T>,
}

/// Why building one adapter failed.
#[derive(Debug, PartialEq, Eq)]
pub enum GenError {
    /// A return-pointer slot had a type other than `i32`, `f32` or `f64`.
    InvalidAggregateReturnType,
    /// An evaluator produced a different number of expressions than the
    /// return protocol has slots.
    ReturnCountMismatch,
    /// An evaluator produced no typescript descriptor for the return value.
    MissingReturnType,
    /// An evaluator produced cleanup code where a returned expression rules
    /// it out.
    ReturnFinallyConflict,
    /// An evaluator or invoker failed on its own account.
    EvaluatorError(String),
}

/// The surrounding host module: the debug switch, which helpers have been
/// requested, and the native module's type table (the parameter count of
/// each function type).
#[derive(Debug, PartialEq, Eq)]
pub struct Context {
    pub debug: bool,
    pub exposed_int32_memory: bool,
    pub exposed_f32_memory: bool,
    pub exposed_f64_memory: bool,
    pub exposed_handle_error: bool,
    pub exposed_log_error: bool,
    pub type_param_counts: Vec<usize>,
}

/// What every evaluator and invoker leaves alone: the configuration and the
/// type table stand, and a helper once requested stays requested.
pub open spec fn cx_preserved(pre: Context, post: Context) -> bool {
    &&& post.debug == pre.debug
    &&& post.type_param_counts@ == pre.type_param_counts@
    &&& (pre.exposed_int32_memory ==> post.exposed_int32_memory)
    &&& (pre.exposed_f32_memory ==> post.exposed_f32_memory)
    &&& (pre.exposed_f64_memory ==> post.exposed_f64_memory)
    &&& (pre.exposed_handle_error ==> post.exposed_handle_error)
    &&& (pre.exposed_log_error ==> post.exposed_log_error)
}

/// Helper preservation composes.
pub proof fn lemma_cx_preserved_trans(a: Context, b: Context, c: Context)
    requires
        cx_preserved(a, b),
        cx_preserved(b, c),
    ensures
        cx_preserved(a, c),
{
}

impl Context {
    /// A fresh context with nothing requested yet.
    pub fn new(debug: bool, type_param_counts: Vec<usize>) -> (cx: Context)
        ensures
            cx.debug == debug,
            cx.type_param_counts == type_param_counts,
            !cx.exposed_int32_memory,
            !cx.exposed_f32_memory,
            !cx.exposed_f64_memory,
            !cx.exposed_handle_error,
            !cx.exposed_log_error,
    {
        Context {
            debug,
            exposed_int32_memory: false,
            exposed_f32_memory: false,
            exposed_f64_memory: false,
            exposed_handle_error: false,
            exposed_log_error: false,
            type_param_counts,
        }
    }

    /// Requests the 32-bit integer view of linear memory.
    pub fn expose_int32_memory(&mut self)
        ensures
            *final(self) == (Context { exposed_int32_memory: true, ..*old(self) }),
    {
        self.exposed_int32_memory = true;
    }

    /// Requests the 32-bit float view of linear memory.
    pub fn expose_f32_memory(&mut self)
        ensures
            *final(self) == (Context { exposed_f32_memory: true, ..*old(self) }),
    {
        self.exposed_f32_memory = true;
    }

    /// Requests the 64-bit float view of linear memory.
    pub fn expose_f64_memory(&mut self)
        ensures
            *final(self) == (Context { exposed_f64_memory: true, ..*old(self) }),
    {
        self.exposed_f64_memory = true;
    }

    /// Requests the error-rethrow helper.
    pub fn expose_handle_error(&mut self)
        ensures
            *final(self) == (Context { exposed_handle_error: true, ..*old(self) }),
    {
        self.exposed_handle_error = true;
    }

    /// Requests the error-logging helper.
    pub fn expose_log_error(&mut self)
        ensures
            *final(self) == (Context { exposed_log_error: true, ..*old(self) }),
    {
        self.exposed_log_error = true;
    }
}

/// One typescript parameter or return descriptor.
#[derive(Debug)]
pub struct TypescriptArg {
    pub ty: String,
    pub name: String,
    pub optional: bool,
}

/// The string accumulators an instruction evaluator writes into: prelude and
/// cleanup lines, typescript descriptors, a temporary counter, and the
/// argument expressions it may read.
#[derive(Debug)]
pub struct JsBuilder {
    pub typescript: Vec<TypescriptArg>,
    pub prelude: String,
    pub finally: String,
    pub tmp: usize,
    pub args: Vec<String>,
}

impl JsBuilder {
    /// A fresh accumulator over the given argument expressions.
    pub fn new(args: Vec<String>) -> (js: JsBuilder)
        ensures
            js.args == args,
            js.tmp == 0,
            js.prelude@ == Seq::<char>::empty(),
            js.finally@ == Seq::<char>::empty(),
            js.typescript@ == Seq::<TypescriptArg>::empty(),
    {
        JsBuilder {
            args,
            tmp: 0,
            finally: String::new(),
            prelude: String::new(),
            typescript: Vec::new(),
        }
    }

    /// How many typescript descriptors have been recorded.
    pub fn typescript_len(&self) -> (r: usize)
        ensures
            r == self.typescript@.len(),
    {
        self.typescript.len()
    }

    /// The argument expression at `idx`.
    pub fn arg(&self, idx: u32) -> (r: &str)
        requires
            idx < self.args@.len(),
        ensures
            r@ == self.args@[idx as int]@,
    {
        self.args[idx as usize].as_str()
    }

    /// Records a required typescript parameter, named after the next
    /// argument expression.
    pub fn typescript_required(&mut self, ty: &str)
        requires
            old(self).typescript@.len() < old(self).args@.len(),
        ensures
            final(self).typescript@.len() == old(self).typescript@.len() + 1,
            final(self).typescript@.drop_last() == old(self).typescript@,
            final(self).typescript@.last().ty@ == ty@,
            final(self).typescript@.last().name@ == old(self).args@[old(
                self,
            ).typescript@.len() as int]@,
            !final(self).typescript@.last().optional,
            final(self).prelude == old(self).prelude,
            final(self).finally == old(self).finally,
            final(self).tmp == old(self).tmp,
            final(self).args == old(self).args,
    {
        let name = self.args[self.typescript.len()].clone();
        self.typescript.push(TypescriptArg { ty: String::from_str(ty), optional: false, name });
        proof {
            assert(final(self).typescript@.drop_last() =~= old(self).typescript@);
        }
    }

    /// Records an optional typescript parameter, named after the next
    /// argument expression.
    pub fn typescript_optional(&mut self, ty: &str)
        requires
            old(self).typescript@.len() < old(self).args@.len(),
        ensures
            final(self).typescript@.len() == old(self).typescript@.len() + 1,
            final(self).typescript@.drop_last() == old(self).typescript@,
            final(self).typescript@.last().ty@ == ty@,
            final(self).typescript@.last().name@ == old(self).args@[old(
                self,
            ).typescript@.len() as int]@,
            final(self).typescript@.last().optional,
            final(self).prelude == old(self).prelude,
            final(self).finally == old(self).finally,
            final(self).tmp == old(self).tmp,
            final(self).args == old(self).args,
    {
        let name = self.args[self.typescript.len()].clone();
        self.typescript.push(TypescriptArg { ty: String::from_str(ty), optional: true, name });
        proof {
            assert(final(self).typescript@.drop_last() =~= old(self).typescript@);
        }
    }

    /// Appends prelude code, line by line.
    pub fn prelude(&mut self, prelude: &str)
        ensures
            final(self).prelude@ == old(self).prelude@ + norm_lines(prelude@),
            final(self).finally == old(self).finally,
            final(self).typescript@ == old(self).typescript@,
            final(self).tmp == old(self).tmp,
            final(self).args == old(self).args,
    {
        crate::text::append_norm_lines(&mut self.prelude, prelude);
    }

    /// Appends cleanup code, line by line.
    pub fn finally(&mut self, finally: &str)
        ensures
            final(self).finally@ == old(self).finally@ + norm_lines(finally@),
            final(self).prelude == old(self).prelude,
            final(self).typescript@ == old(self).typescript@,
            final(self).tmp == old(self).tmp,
            final(self).args == old(self).args,
    {
        crate::text::append_norm_lines(&mut self.finally, finally);
    }

    /// Hands out the next temporary index.
    pub fn tmp(&mut self) -> (r: usize)
        requires
            old(self).tmp < usize::MAX,
        ensures
            r == old(self).tmp,
            final(self).tmp == old(self).tmp + 1,
            final(self).prelude == old(self).prelude,
            final(self).finally == old(self).finally,
            final(self).typescript@ == old(self).typescript@,
            final(self).args == old(self).args,
    {
        let ret = self.tmp;
        self.tmp = self.tmp + 1;
        ret
    }
}

/// The builder of one adapter: the accumulators whose concatenation order
/// finalisation fixes, the typescript descriptors, and the mode switches.
#[derive(Debug)]
pub struct Builder {
    /// Code placed before the invocation, preparing arguments.
    pub args_prelude: String,
    /// Cleanup run whatever the call did.
    pub finally: String,
    /// Cleanup that materialises an aggregate return value.
    pub ret_finally: String,
    /// The formal parameter names of the emitted function.
    pub function_args: Vec<String>,
    /// The argument expressions of the invocation.
    pub invoc_args: Vec<String>,
    /// Code placed just before the return value is materialised.
    pub ret_prelude: String,
    /// The returned expression.
    pub ret_js: String,
    /// The typescript descriptor of each parameter.
    pub ts_args: Vec<TypescriptArg>,
    /// The typescript descriptor of the return value.
    pub ts_ret: Option<TypescriptArg>,
    /// The class under construction, for a constructor.
    pub constructor: Option<String>,
    /// Whether this is an instance method, and whether it consumes the
    /// receiver.
    pub method: Option<bool>,
    /// Whether the invocation is wrapped to catch exceptions.
    pub catch: bool,
}

/// A try block catching with the named handler.
pub open spec fn wrap_handler(call: Seq<char>, handler: Seq<char>) -> Seq<char> {
    "try {\n"@ + call + "} catch (e) {\n "@ + handler + "(e)\n}\n"@
}

/// A try block with a finally clause.
pub open spec fn wrap_finally(call: Seq<char>, fin: Seq<char>) -> Seq<char> {
    "try {\n"@ + call + "} finally {\n"@ + fin + "\n}\n"@
}

/// The emitted body: formal arguments, trimmed argument prelude, the
/// invocation (bound to `ret` when a value returns), the trimmed return
/// prelude, then either the returned expression or the trimmed write-back
/// lines; wrapped first by the error handler, then by the debug logger, and
/// outermost by the cleanup clause.
pub open spec fn spec_finalize(b: Builder, debug: bool, invoc: Seq<char>) -> Seq<char> {
    let js0 = "("@ + spec_join(b.function_args@) + ") {\n"@;
    let js1 = if b.args_prelude@.len() > 0 {
        js0 + spec_trim(b.args_prelude@) + "\n"@
    } else {
        js0
    };
    let call0 = (if b.ts_ret is Some {
        "const ret = "@
    } else {
        Seq::<char>::empty()
    }) + invoc + ";\n"@;
    let call1 = if b.ret_prelude@.len() > 0 {
        call0 + spec_trim(b.ret_prelude@) + "\n"@
    } else {
        call0
    };
    let call2 = if b.ret_js@.len() > 0 {
        call1 + "return "@ + b.ret_js@ + ";\n"@
    } else if b.ret_finally@.len() > 0 {
        call1 + spec_trim(b.ret_finally@) + "\n"@
    } else {
        call1
    };
    let call3 = if b.catch {
        wrap_handler(call2, "handleError"@)
    } else {
        call2
    };
    let call4 = if debug {
        wrap_handler(call3, "logError"@)
    } else {
        call3
    };
    let call5 = if spec_trim(b.finally@).len() != 0 {
        wrap_finally(call4, spec_trim(b.finally@))
    } else {
        call4
    };
    js1 + call5 + "}"@
}

fn wrap_handler_exec(call: String, handler: &str) -> (r: String)
    ensures
        r@ == wrap_handler(call@, handler@),
{
    let mut s = String::new();
    s.append("try {\n");
    s.append(call.as_str());
    s.append("} catch (e) {\n ");
    s.append(handler);
    s.append("(e)\n}\n");
    proof {
        assert(s@ =~= wrap_handler(call@, handler@));
    }
    s
}

impl Builder {
    /// A fresh builder for one adapter.
    pub fn new() -> (b: Builder)
        ensures
            builder_fresh(b),
            b.constructor is None,
            b.method is None,
            !b.catch,
    {
        Builder {
            args_prelude: String::new(),
            finally: String::new(),
            ret_finally: String::new(),
            function_args: Vec::new(),
            invoc_args: Vec::new(),
            ret_prelude: String::new(),
            ret_js: String::new(),
            ts_args: Vec::new(),
            ts_ret: None,
            constructor: None,
            method: None,
            catch: false,
        }
    }

    /// Marks the adapter as an instance method, consuming the receiver or
    /// not.
    pub fn method(&mut self, consumed: bool)
        ensures
            *final(self) == (Builder { method: Some(consumed), ..*old(self) }),
    {
        self.method = Some(consumed);
    }

    /// Marks the adapter as the constructor of the named class.
    pub fn constructor(&mut self, class: &str)
        ensures
            final(self).constructor matches Some(c) && c@ == class@,
            final(self).method == old(self).method,
            final(self).catch == old(self).catch,
            final(self).args_prelude == old(self).args_prelude,
            final(self).finally == old(self).finally,
            final(self).ret_finally == old(self).ret_finally,
            final(self).function_args == old(self).function_args,
            final(self).invoc_args == old(self).invoc_args,
            final(self).ret_prelude == old(self).ret_prelude,
            final(self).ret_js == old(self).ret_js,
            final(self).ts_args@ == old(self).ts_args@,
            final(self).ts_ret == old(self).ts_ret,
    {
        self.constructor = Some(String::from_str(class));
    }

    /// Switches exception catching on or off; switching it on requests the
    /// error-rethrow helper from the context.
    pub fn catch(&mut self, cx: &mut Context, catch: bool) -> (r: Result<(), GenError>)
        ensures
            r is Ok,
            *final(self) == (Builder { catch, ..*old(self) }),
            catch ==> *final(cx) == (Context { exposed_handle_error: true, ..*old(cx) }),
            !catch ==> *final(cx) == *old(cx),
    {
        if catch {
            cx.expose_handle_error();
        }
        self.catch = catch;
        Ok(())
    }

    /// Lays the adapter body out in the fixed order.
    pub fn finalize(&self, debug: bool, invoc: &str) -> (r: String)
        requires
            self.ret_js@.len() > 0 ==> self.ts_ret is Some,
            self.ret_js@.len() > 0 ==> self.ret_finally@.len() == 0,
        ensures
            r@ == spec_finalize(*self, debug, invoc@),
    {
        let mut js = String::new();
        js.append("(");
        let joined = join_comma(&self.function_args);
        js.append(joined.as_str());
        js.append(") {\n");
        if self.args_prelude.as_str().unicode_len() > 0 {
            let t = trim(self.args_prelude.as_str());
            js.append(t);
            js.append("\n");
        }
        let mut call = String::new();
        if self.ts_ret.is_some() {
            call.append("const ret = ");
        }
        call.append(invoc);
        call.append(";\n");
        if self.ret_prelude.as_str().unicode_len() > 0 {
            let t = trim(self.ret_prelude.as_str());
            call.append(t);
            call.append("\n");
        }
        if self.ret_js.as_str().unicode_len() > 0 {
            call.append("return ");
            call.append(self.ret_js.as_str());
            call.append(";\n");
        } else if self.ret_finally.as_str().unicode_len() > 0 {
            let t = trim(self.ret_finally.as_str());
            call.append(t);
            call.append("\n");
        }
        if self.catch {
            call = wrap_handler_exec(call, "handleError");
        }
        if debug {
            call = wrap_handler_exec(call, "logError");
        }
        let fin = trim(self.finally.as_str());
        if fin.unicode_len() != 0 {
            let mut wrapped = String::new();
            wrapped.append("try {\n");
            wrapped.append(call.as_str());
            wrapped.append("} finally {\n");
            wrapped.append(fin);
            wrapped.append("\n}\n");
            proof {
                assert(wrapped@ =~= wrap_finally(call@, spec_trim(self.finally@)));
            }
            call = wrapped;
        }
        js.append(call.as_str());
        js.append("}");
        proof {
            assert(js@ =~= spec_finalize(*self, debug, invoc@));
        }
        js
    }

    /// The rendering of one typescript argument at position `i`: with a `?`
    /// suffix when it is optional and only optional arguments follow; spelt
    /// `| undefined` when it is optional but a required argument follows.
    pub open spec fn ts_arg_render(args: Seq<TypescriptArg>, i: int) -> Seq<char> {
        let a = args[i];
        if a.optional {
            if forall|j: int| i < j < args.len() ==> (#[trigger] args[j]).optional {
                a.name@ + "?: "@ + a.ty@
            } else {
                a.name@ + ": "@ + a.ty@ + " | undefined"@
            }
        } else {
            a.name@ + ": "@ + a.ty@
        }
    }

    /// The rendered argument list from position `i` on, comma separated.
    pub open spec fn ts_args_render(args: Seq<TypescriptArg>, i: int) -> Seq<char>
        decreases args.len() - i,
        when 0 <= i <= args.len()
    {
        if i >= args.len() {
            Seq::empty()
        } else if i == args.len() - 1 {
            Builder::ts_arg_render(args, i)
        } else {
            Builder::ts_arg_render(args, i) + ", "@ + Builder::ts_args_render(args, i + 1)
        }
    }

    /// The typescript return rendering: nothing for a constructor; `void`
    /// without a return value; the type, `| undefined` when optional.
    pub open spec fn ts_ret_render(b: Builder) -> Seq<char> {
        if b.constructor is Some {
            Seq::empty()
        } else {
            ": "@ + (match b.ts_ret {
                Option::None => "void"@,
                Option::Some(t) => if t.optional {
                    t.ty@ + " | undefined"@
                } else {
                    t.ty@
                },
            })
        }
    }

    /// The full typescript signature.
    pub open spec fn spec_typescript_signature(b: Builder) -> Seq<char> {
        "("@ + Builder::ts_args_render(b.ts_args@, 0) + ")"@ + Builder::ts_ret_render(b)
    }

    /// Renders the typescript signature of the adapter: the argument list
    /// and the return type, without any function name.
    #[verifier::loop_isolation(false)]
    pub fn typescript_signature(&self) -> (r: String)
        ensures
            r@ == Builder::spec_typescript_signature(*self),
    {
        let mut omittable = true;
        let mut rendered = String::new();
        let mut i: usize = self.ts_args.len();
        while i > 0
            invariant
                0 <= i <= self.ts_args@.len(),
                omittable == (forall|j: int|
                    i <= j < self.ts_args@.len() ==> (#[trigger] self.ts_args@[j]).optional),
                i < self.ts_args@.len() ==> rendered@ == Builder::ts_args_render(
                    self.ts_args@,
                    i as int,
                ),
                i == self.ts_args@.len() ==> rendered@ == Seq::<char>::empty(),
            decreases i,
        {
            i = i - 1;
            let a = &self.ts_args[i];
            let mut piece = String::new();
            if a.optional {
                if omittable {
                    piece.append(a.name.as_str());
                    piece.append("?: ");
                    piece.append(a.ty.as_str());
                } else {
                    piece.append(a.name.as_str());
                    piece.append(": ");
                    piece.append(a.ty.as_str());
                    piece.append(" | undefined");
                }
            } else {
                omittable = false;
                piece.append(a.name.as_str());
                piece.append(": ");
                piece.append(a.ty.as_str());
            }
            proof {
                assert(piece@ =~= Builder::ts_arg_render(self.ts_args@, i as int));
            }
            if i + 1 < self.ts_args.len() {
                piece.append(", ");
                piece.append(rendered.as_str());
                proof {
                    assert(piece@ =~= Builder::ts_args_render(self.ts_args@, i as int));
                }
            }
            rendered = piece;
        }
        let mut ts = String::new();
        ts.append("(");
        ts.append(rendered.as_str());
        ts.append(")");
        if !self.constructor.is_some() {
            ts.append(": ");
            match &self.ts_ret {
                Some(t) => {
                    ts.append(t.ty.as_str());
                    if t.optional {
                        ts.append(" | undefined");
                    }
                },
                None => {
                    ts.append("void");
                },
            }
        }
        proof {
            assert(ts@ =~= Builder::spec_typescript_signature(*self));
        }
        ts
    }

    /// One doc line per argument, and a returns line when a value returns.
    pub open spec fn doc_arg_render(a: TypescriptArg) -> Seq<char> {
        if a.optional {
            "@param {"@ + a.ty@ + " | undefined} "@ + a.name@ + "\n"@
        } else {
            "@param {"@ + a.ty@ + "} "@ + a.name@ + "\n"@
        }
    }

    /// The doc lines of the arguments up to position `i`.
    pub open spec fn doc_args_render(args: Seq<TypescriptArg>, i: int) -> Seq<char>
        decreases i,
        when 0 <= i <= args.len()
    {
        if i <= 0 {
            Seq::empty()
        } else {
            Builder::doc_args_render(args, i - 1) + Builder::doc_arg_render(args[i - 1])
        }
    }

    /// The full doc header.
    pub open spec fn spec_js_doc_comments(b: Builder) -> Seq<char> {
        Builder::doc_args_render(b.ts_args@, b.ts_args@.len() as int) + (match b.ts_ret {
            Option::Some(t) => "@returns {"@ + t.ty@ + "}"@,
            Option::None => Seq::empty(),
        })
    }

    /// Renders the doc header: one `@param` line per argument, then a
    /// `@returns` line when a value returns.
    #[verifier::loop_isolation(false)]
    pub fn js_doc_comments(&self) -> (r: String)
        ensures
            r@ == Builder::spec_js_doc_comments(*self),
    {
        let mut ret = String::new();
        let mut i: usize = 0;
        while i < self.ts_args.len()
            invariant
                0 <= i <= self.ts_args@.len(),
                ret@ == Builder::doc_args_render(self.ts_args@, i as int),
            decreases self.ts_args@.len() - i,
        {
            let a = &self.ts_args[i];
            if a.optional {
                ret.append("@param {");
                ret.append(a.ty.as_str());
                ret.append(" | undefined} ");
                ret.append(a.name.as_str());
                ret.append("\n");
            } else {
                ret.append("@param {");
                ret.append(a.ty.as_str());
                ret.append("} ");
                ret.append(a.name.as_str());
                ret.append("\n");
            }
            proof {
                assert(ret@ =~= Builder::doc_args_render(self.ts_args@, i as int + 1));
            }
            i = i + 1;
        }
        match &self.ts_ret {
            Some(t) => {
                ret.append("@returns {");
                ret.append(t.ty.as_str());
                ret.append("}");
            },
            None => {},
        }
        proof {
            assert(ret@ =~= Builder::spec_js_doc_comments(*self));
        }
        ret
    }
}

/// A builder that has not yet processed a binding: every accumulator empty.
pub open spec fn builder_fresh(b: Builder) -> bool {
    &&& b.args_prelude@ == Seq::<char>::empty()
    &&& b.finally@ == Seq::<char>::empty()
    &&& b.ret_finally@ == Seq::<char>::empty()
    &&& b.function_args@ == Seq::<String>::empty()
    &&& b.invoc_args@ == Seq::<String>::empty()
    &&& b.ret_prelude@ == Seq::<char>::empty()
    &&& b.ret_js@ == Seq::<char>::empty()
    &&& b.ts_args@ == Seq::<TypescriptArg>::empty()
    &&& b.ts_ret is None
}

/// Exactly one return shape holds of an emitted adapter: no return at all, a
/// returned expression, or a return-pointer write-back.
pub open spec fn return_shape_ok(b: Builder) -> bool {
    ||| (b.ts_ret is None && b.ret_js@.len() == 0 && b.ret_finally@.len() == 0)
    ||| (b.ts_ret is Some && b.ret_js@.len() > 0 && b.ret_finally@.len() == 0)
    ||| (b.ts_ret is Some && b.ret_js@.len() == 0 && b.ret_finally@.len() > 0)
}

/// An instruction evaluator: maps one marshalling instruction to host
/// expressions, writing prelude and cleanup lines and typescript descriptors
/// into the accumulator.  Whatever it does, it returns non-empty
/// expressions, and it leaves the context's configuration alone, only ever
/// requesting more helpers.
pub trait Evaluator<T, I, O> {
    /// Lowers one incoming instruction to the native expressions that feed
    /// the invocation (or the write-back), one per native value produced.
    fn eval_incoming(
        &mut self,
        cx: &mut Context,
        params: &Vec<T>,
        js: &mut JsBuilder,
        instr: &I,
    ) -> (r: Result<Vec<String>, GenError>)
        ensures
            cx_preserved(*old(cx), *final(cx)),
            r matches Ok(exprs) ==> forall|i: int|
                0 <= i < exprs@.len() ==> (#[trigger] exprs@[i])@.len() > 0,
    ;

    /// Lifts one outgoing instruction to the host expression it denotes.
    fn eval_outgoing(&mut self, cx: &mut Context, js: &mut JsBuilder, instr: &O) -> (r: Result<
        String,
        GenError,
    >)
        ensures
            cx_preserved(*old(cx), *final(cx)),
            r matches Ok(e) ==> e@.len() > 0,
    ;
}

/// The invocation capability: given the argument expressions, returns the
/// expression invoking the target, appending to the argument prelude at
/// most.
pub trait Invoker {
    /// Produces the invocation expression.
    fn invoke(&mut self, cx: &mut Context, prelude: &mut String, args: &Vec<String>) -> (r: Result<
        String,
        GenError,
    >)
        ensures
            cx_preserved(*old(cx), *final(cx)),
            old(prelude)@.len() <= final(prelude)@.len(),
            final(prelude)@.subrange(0, old(prelude)@.len() as int) == old(prelude)@,
    ;
}

/// One direct marshalling instruction: an argument slot passed through, a
/// literal expression, or a pair of expressions decomposing one value into
/// two native slots.
#[derive(Debug)]
pub enum SlotExpr {
    /// Pass the argument expression at the index through, recording a
    /// required typescript descriptor of the given type.
    ArgSlot(u32, String),
    /// A literal host expression.
    TextExpr(String),
    /// Two native expressions for one host value, with its typescript type.
    Split { first: String, second: String, ty: String },
}

/// The direct evaluator: every instruction already denotes a host
/// expression.
#[derive(Debug)]
pub struct SlotEvaluator {}

impl<T> Evaluator<T, SlotExpr, SlotExpr> for SlotEvaluator {
    fn eval_incoming(
        &mut self,
        cx: &mut Context,
        params: &Vec<T>,
        js: &mut JsBuilder,
        instr: &SlotExpr,
    ) -> (r: Result<Vec<String>, GenError>)
    {
        match instr {
            SlotExpr::ArgSlot(idx, ty) => {
                if (*idx as usize) < js.args.len() && js.typescript.len() < js.args.len() {
                    let name = String::from_str(js.arg(*idx));
                    if name.as_str().unicode_len() == 0 {
                        return Err(GenError::EvaluatorError(String::from_str("empty argument")));
                    }
                    js.typescript_required(ty.as_str());
                    let mut out: Vec<String> = Vec::new();
                    out.push(name);
                    Ok(out)
                } else {
                    Err(GenError::EvaluatorError(String::from_str("argument out of range")))
                }
            },
            SlotExpr::TextExpr(text) => {
                if text.as_str().unicode_len() == 0 {
                    return Err(GenError::EvaluatorError(String::from_str("empty expression")));
                }
                let mut out: Vec<String> = Vec::new();
                out.push(text.clone());
                Ok(out)
            },
            SlotExpr::Split { first, second, ty } => {
                if first.as_str().unicode_len() == 0 || second.as_str().unicode_len() == 0 {
                    return Err(GenError::EvaluatorError(String::from_str("empty expression")));
                }
                if js.typescript.len() >= js.args.len() {
                    return Err(GenError::EvaluatorError(String::from_str("descriptor overflow")));
                }
                js.typescript_required(ty.as_str());
                let mut out: Vec<String> = Vec::new();
                out.push(first.clone());
                out.push(second.clone());
                Ok(out)
            },
        }
    }

    fn eval_outgoing(&mut self, cx: &mut Context, js: &mut JsBuilder, instr: &SlotExpr) -> (r:
        Result<String, GenError>)
    {
        match instr {
            SlotExpr::ArgSlot(idx, ty) => {
                if (*idx as usize) < js.args.len() && js.typescript.len() < js.args.len() {
                    let name = String::from_str(js.arg(*idx));
                    if name.as_str().unicode_len() == 0 {
                        return Err(GenError::EvaluatorError(String::from_str("empty argument")));
                    }
                    js.typescript_required(ty.as_str());
                    Ok(name)
                } else {
                    Err(GenError::EvaluatorError(String::from_str("argument out of range")))
                }
            },
            SlotExpr::TextExpr(text) => {
                if text.as_str().unicode_len() == 0 {
                    return Err(GenError::EvaluatorError(String::from_str("empty expression")));
                }
                Ok(text.clone())
            },
            SlotExpr::Split { first, second, ty } => Err(
                GenError::EvaluatorError(String::from_str("not a single expression")),
            ),
        }
    }
}

/// The direct invoker: calls the named target with the marshalled arguments.
#[derive(Debug)]
pub struct CallInvoker {
    pub target: String,
}

impl Invoker for CallInvoker {
    fn invoke(&mut self, cx: &mut Context, prelude: &mut String, args: &Vec<String>) -> (r: Result<
        String,
        GenError,
    >)
    {
        let mut s = String::new();
        s.append(self.target.as_str());
        s.append("(");
        let joined = join_comma(args);
        s.append(joined.as_str());
        s.append(")");
        proof {
            assert(final(prelude)@.subrange(0, old(prelude)@.len() as int) =~= old(prelude)@);
        }
        Ok(s)
    }
}

/// The synthetic argument prelude: the fixed return-pointer binding, then
/// the receiver handling of a consuming method.
pub open spec fn synth_prelude(outptr: bool, method: Option<bool>) -> Seq<char> {
    (if outptr {
        "const retptr = 8;\n"@
    } else {
        Seq::<char>::empty()
    }) + (match method {
        Option::Some(true) => "const ptr = this.ptr;\n"@ + "this.ptr = 0;\n"@,
        _ => Seq::<char>::empty(),
    })
}

/// How many native parameters are synthetic: the return pointer and the
/// receiver.
pub open spec fn synth_count(outptr: bool, method: Option<bool>) -> int {
    (if outptr {
        1int
    } else {
        0int
    }) + (if method is Some {
        1int
    } else {
        0int
    })
}

/// Whether `p` is a prefix of `s`.
pub open spec fn starts_with(s: Seq<char>, p: Seq<char>) -> bool {
    p.len() <= s.len() && s.subrange(0, p.len() as int) == p
}

/// The memory-view prelude of an aggregate return: one binding per distinct
/// view, in order of first use.
pub open spec fn mem_prelude(list: Seq<ValType>, si: bool, sf: bool, sd: bool) -> Seq<char>
    decreases list.len(),
{
    if list.len() == 0 {
        Seq::empty()
    } else {
        match list[0] {
            ValType::I32 => if si {
                mem_prelude(list.drop_first(), si, sf, sd)
            } else {
                "const memi32 = getInt32Memory();\n"@ + mem_prelude(list.drop_first(), true, sf, sd)
            },
            ValType::F32 => if sf {
                mem_prelude(list.drop_first(), si, sf, sd)
            } else {
                "const memf32 = getFloat32Memory();\n"@ + mem_prelude(
                    list.drop_first(),
                    si,
                    true,
                    sd,
                )
            },
            ValType::F64 => if sd {
                mem_prelude(list.drop_first(), si, sf, sd)
            } else {
                "const memf64 = getFloat64Memory();\n"@ + mem_prelude(
                    list.drop_first(),
                    si,
                    sf,
                    true,
                )
            },
            _ => mem_prelude(list.drop_first(), si, sf, sd),
        }
    }
}

/// Whether a value type may occupy a return-pointer slot.
pub open spec fn agg_ty_ok(t: ValType) -> bool {
    t == ValType::I32 || t == ValType::F32 || t == ValType::F64
}

/// The expression of the whole memory view of one slot type.
pub open spec fn view_name(t: ValType) -> Seq<char> {
    match t {
        ValType::I32 => "getInt32Memory()"@,
        ValType::F32 => "getFloat32Memory()"@,
        ValType::F64 => "getFloat64Memory()"@,
        _ => Seq::<char>::empty(),
    }
}

/// The short name bound to the memory view of one slot type.
pub open spec fn view_short(t: ValType) -> Seq<char> {
    match t {
        ValType::I32 => "memi32"@,
        ValType::F32 => "memf32"@,
        ValType::F64 => "memf64"@,
        _ => Seq::<char>::empty(),
    }
}

/// The element width of the memory view of one slot type.
pub open spec fn view_size(t: ValType) -> nat {
    match t {
        ValType::F64 => 8,
        _ => 4,
    }
}

/// The read expression seeding the outgoing evaluator for slot `i`.
pub open spec fn slot_read_expr(t: ValType, i: nat) -> Seq<char> {
    view_short(t) + "[retptr / "@ + crate::text::dec_of(view_size(t)) + " + "@
        + crate::text::dec_of(i) + "]"@
}

/// The bindings that name each decomposed result.
pub open spec fn wb_const_lines(exprs: Seq<Seq<char>>) -> Seq<char>
    decreases exprs.len(),
{
    if exprs.len() == 0 {
        Seq::empty()
    } else {
        wb_const_lines(exprs.drop_last()) + "const ret"@ + crate::text::dec_of(
            (exprs.len() - 1) as nat,
        ) + " = "@ + exprs.last() + ";\n"@
    }
}

/// The write-back lines storing each decomposed result through the caller's
/// pointer.
pub open spec fn wb_store_lines(list: Seq<ValType>) -> Seq<char>
    decreases list.len(),
{
    if list.len() == 0 {
        Seq::empty()
    } else {
        wb_store_lines(list.drop_last()) + view_name(list.last()) + "[arg0 / "@
            + crate::text::dec_of(view_size(list.last())) + " + "@ + crate::text::dec_of(
            (list.len() - 1) as nat,
        ) + "] = ret"@ + crate::text::dec_of((list.len() - 1) as nat) + ";\n"@
    }
}

/// The generated name of the host parameter at `i`.
pub open spec fn arg_name_at(explicit: Option<Vec<String>>, i: int) -> Seq<char> {
    match explicit {
        Option::Some(list) => list@[i]@,
        Option::None => "arg"@ + crate::text::dec_of(i as nat),
    }
}

impl Builder {
    /// Binds each distinct memory view the aggregate return needs and builds
    /// the read expressions seeding the outgoing evaluator, requesting each
    /// view from the context.
    #[verifier::loop_isolation(false)]
    fn build_view_reads(cx: &mut Context, list: &Vec<ValType>) -> (r: Result<
        (String, Vec<String>),
        GenError,
    >)
        ensures
            cx_preserved(*old(cx), *final(cx)),
            r is Ok ==> {
                let (views, seeds) = r->Ok_0;
                &&& views@ == mem_prelude(list@, false, false, false)
                &&& seeds@.len() == list@.len()
                &&& (forall|i: int|
                    0 <= i < list@.len() ==> (#[trigger] seeds@[i])@ == slot_read_expr(
                        list@[i],
                        i as nat,
                    ))
                &&& (forall|i: int| 0 <= i < list@.len() ==> agg_ty_ok(#[trigger] list@[i]))
                &&& ((exists|i: int| 0 <= i < list@.len() && list@[i] == ValType::I32)
                    ==> final(cx).exposed_int32_memory)
                &&& ((exists|i: int| 0 <= i < list@.len() && list@[i] == ValType::F32)
                    ==> final(cx).exposed_f32_memory)
                &&& ((exists|i: int| 0 <= i < list@.len() && list@[i] == ValType::F64)
                    ==> final(cx).exposed_f64_memory)
            },
            r is Err ==> r->Err_0 == GenError::InvalidAggregateReturnType,
    {
        let ghost full = list@;
        let mut views = String::new();
        let mut seeds: Vec<String> = Vec::new();
        let mut seen_i32 = false;
        let mut seen_f32 = false;
        let mut seen_f64 = false;
        let mut i: usize = 0;
        proof {
            assert(full.skip(0) =~= full);
        }
        while i < list.len()
            invariant
                0 <= i <= full.len(),
                seeds@.len() == i,
                cx_preserved(*old(cx), *cx),
                mem_prelude(full, false, false, false) == views@ + mem_prelude(
                    full.skip(i as int),
                    seen_i32,
                    seen_f32,
                    seen_f64,
                ),
                seen_i32 == (exists|j: int| 0 <= j < i && full[j] == ValType::I32),
                seen_f32 == (exists|j: int| 0 <= j < i && full[j] == ValType::F32),
                seen_f64 == (exists|j: int| 0 <= j < i && full[j] == ValType::F64),
                seen_i32 ==> cx.exposed_int32_memory,
                seen_f32 ==> cx.exposed_f32_memory,
                seen_f64 ==> cx.exposed_f64_memory,
                forall|j: int| 0 <= j < i ==> agg_ty_ok(#[trigger] full[j]),
                forall|j: int|
                    0 <= j < i ==> (#[trigger] seeds@[j])@ == slot_read_expr(full[j], j as nat),
            decreases full.len() - i,
        {
            proof {
                assert(full.skip(i as int)[0] == full[i as int]);
                assert(full.skip(i as int).drop_first() =~= full.skip(i as int + 1));
            }
            let (mem, size): (&str, usize) = match list[i] {
                ValType::I32 => {
                    if !seen_i32 {
                        cx.expose_int32_memory();
                        views.append("const memi32 = getInt32Memory();\n");
                        seen_i32 = true;
                    }
                    ("memi32", 4)
                },
                ValType::F32 => {
                    if !seen_f32 {
                        cx.expose_f32_memory();
                        views.append("const memf32 = getFloat32Memory();\n");
                        seen_f32 = true;
                    }
                    ("memf32", 4)
                },
                ValType::F64 => {
                    if !seen_f64 {
                        cx.expose_f64_memory();
                        views.append("const memf64 = getFloat64Memory();\n");
                        seen_f64 = true;
                    }
                    ("memf64", 8)
                },
                _ => {
                    return Err(GenError::InvalidAggregateReturnType);
                },
            };
            let mut expr = String::from_str(mem);
            expr.append("[retptr / ");
            crate::text::append_dec(&mut expr, size);
            expr.append(" + ");
            crate::text::append_dec(&mut expr, i);
            expr.append("]");
            proof {
                assert(expr@ =~= slot_read_expr(full[i as int], i as nat));
            }
            seeds.push(expr);
            i = i + 1;
        }
        proof {
            assert(full.skip(i as int).len() == 0);
            assert(mem_prelude(full.skip(i as int), seen_i32, seen_f32, seen_f64) =~= Seq::<
                char,
            >::empty());
            assert(views@ =~= mem_prelude(full, false, false, false));
        }
        Ok((views, seeds))
    }

    /// Builds the aggregate write-back: one binding per decomposed result,
    /// then one store per slot through the caller's pointer, requesting each
    /// view from the context.
    #[verifier::loop_isolation(false)]
    #[verifier::rlimit(60)]
    #[verifier::spinoff_prover]
    fn build_write_back(cx: &mut Context, ret_list: &Vec<String>, list: &Vec<ValType>) -> (r:
        Result<String, GenError>)
        requires
            ret_list@.len() == list@.len(),
        ensures
            cx_preserved(*old(cx), *final(cx)),
            r is Ok ==> {
                &&& r->Ok_0@ == wb_const_lines(Seq::new(ret_list@.len(), |i: int| ret_list@[i]@))
                    + wb_store_lines(list@)
                &&& (forall|i: int| 0 <= i < list@.len() ==> agg_ty_ok(#[trigger] list@[i]))
                &&& ((exists|i: int| 0 <= i < list@.len() && list@[i] == ValType::I32)
                    ==> final(cx).exposed_int32_memory)
                &&& ((exists|i: int| 0 <= i < list@.len() && list@[i] == ValType::F32)
                    ==> final(cx).exposed_f32_memory)
                &&& ((exists|i: int| 0 <= i < list@.len() && list@[i] == ValType::F64)
                    ==> final(cx).exposed_f64_memory)
            },
            r is Err ==> r->Err_0 == GenError::InvalidAggregateReturnType,
    {
        let ghost exprs = Seq::new(ret_list@.len(), |i: int| ret_list@[i]@);
        let mut back = String::new();
        let mut i: usize = 0;
        proof {
            assert(exprs.subrange(0, 0) =~= Seq::<Seq<char>>::empty());
        }
        while i < ret_list.len()
            invariant
                0 <= i <= exprs.len(),
                exprs.len() == ret_list@.len(),
                back@ == wb_const_lines(exprs.subrange(0, i as int)),
            decreases exprs.len() - i,
        {
            back.append("const ret");
            crate::text::append_dec(&mut back, i);
            back.append(" = ");
            back.append(ret_list[i].as_str());
            back.append(";\n");
            proof {
                assert(exprs.subrange(0, i as int + 1).drop_last() =~= exprs.subrange(0, i as int));
                assert(exprs.subrange(0, i as int + 1).last() == exprs[i as int]);
                assert(back@ =~= wb_const_lines(exprs.subrange(0, i as int + 1)));
            }
            i = i + 1;
        }
        proof {
            assert(exprs.subrange(0, exprs.len() as int) =~= exprs);
        }
        let mut j: usize = 0;
        proof {
            assert(list@.subrange(0, 0) =~= Seq::<ValType>::empty());
        }
        while j < list.len()
            invariant
                0 <= j <= list@.len(),
                cx_preserved(*old(cx), *cx),
                back@ == wb_const_lines(exprs) + wb_store_lines(list@.subrange(0, j as int)),
                forall|m: int| 0 <= m < j ==> agg_ty_ok(#[trigger] list@[m]),
                (exists|m: int| 0 <= m < j && list@[m] == ValType::I32)
                    ==> cx.exposed_int32_memory,
                (exists|m: int| 0 <= m < j && list@[m] == ValType::F32) ==> cx.exposed_f32_memory,
                (exists|m: int| 0 <= m < j && list@[m] == ValType::F64) ==> cx.exposed_f64_memory,
            decreases list@.len() - j,
        {
            let (mem, size): (&str, usize) = match list[j] {
                ValType::I32 => {
                    cx.expose_int32_memory();
                    ("getInt32Memory()", 4)
                },
                ValType::F32 => {
                    cx.expose_f32_memory();
                    ("getFloat32Memory()", 4)
                },
                ValType::F64 => {
                    cx.expose_f64_memory();
                    ("getFloat64Memory()", 8)
                },
                _ => {
                    return Err(GenError::InvalidAggregateReturnType);
                },
            };
            back.append(mem);
            back.append("[arg0 / ");
            crate::text::append_dec(&mut back, size);
            back.append(" + ");
            crate::text::append_dec(&mut back, j);
            back.append("] = ret");
            crate::text::append_dec(&mut back, j);
            back.append(";\n");
            proof {
                assert(list@.subrange(0, j as int + 1).drop_last() =~= list@.subrange(0, j as int));
                assert(list@.subrange(0, j as int + 1).last() == list@[j as int]);
                assert(back@ =~= wb_const_lines(exprs) + wb_store_lines(
                    list@.subrange(0, j as int + 1),
                ));
            }
            j = j + 1;
        }
        proof {
            assert(list@.subrange(0, list@.len() as int) =~= list@);
        }
        Ok(back)
    }

    /// Trims the typescript descriptors that belong to synthetic parameters:
    /// leading descriptors are dropped until no more descriptors than formal
    /// parameters remain.
    fn trim_ts_args(&mut self)
        ensures
            final(self).ts_args@.len() <= final(self).function_args@.len(),
            final(self).args_prelude == old(self).args_prelude,
            final(self).finally == old(self).finally,
            final(self).ret_finally == old(self).ret_finally,
            final(self).function_args == old(self).function_args,
            final(self).invoc_args@ == old(self).invoc_args@,
            final(self).ret_prelude == old(self).ret_prelude,
            final(self).ret_js == old(self).ret_js,
            final(self).ts_ret == old(self).ts_ret,
            final(self).constructor == old(self).constructor,
            final(self).method == old(self).method,
            final(self).catch == old(self).catch,
    {
        while self.ts_args.len() > self.function_args.len()
            invariant
                self.args_prelude == old(self).args_prelude,
                self.finally == old(self).finally,
                self.ret_finally == old(self).ret_finally,
                self.function_args == old(self).function_args,
                self.invoc_args@ == old(self).invoc_args@,
                self.ret_prelude == old(self).ret_prelude,
                self.ret_js == old(self).ret_js,
                self.ts_ret == old(self).ts_ret,
                self.constructor == old(self).constructor,
                self.method == old(self).method,
                self.catch == old(self).catch,
            decreases self.ts_args@.len(),
        {
            self.ts_args.remove(0);
        }
    }

    /// Processes one binding into the source of its adapter.  In
    /// incoming-args mode the adapter is called by the host: synthetic
    /// parameters (return pointer, receiver) are prepended, the remaining
    /// host parameters are named, the incoming stream feeds the invocation
    /// and the outgoing stream produces the return value.  In outgoing-args
    /// mode the roles are mirrored and an aggregate return is written back
    /// through the caller's pointer.  Whatever the evaluators and the
    /// invoker did, the emitted adapter keeps the fixed layout and exactly
    /// one return shape.
    #[verifier::loop_isolation(false)]
    #[verifier::rlimit(100)]
    #[verifier::spinoff_prover]
    pub fn process<T: Clone, I, O, E: Evaluator<T, I, O>, V: Invoker>(
        &mut self,
        cx: &mut Context,
        binding: &Binding<I, O>,
        webidl: &WebidlFunction<T>,
        incoming_args: bool,
        explicit_arg_names: &Option<Vec<String>>,
        eval: &mut E,
        invoke: &mut V,
    ) -> (r: Result<String, GenError>)
        requires
            builder_fresh(*old(self)),
            binding.return_via_outptr matches Some(list) ==> list@.len() > 0,
            !incoming_args ==> binding.wasm_ty < old(cx).type_param_counts@.len(),
            incoming_args ==> binding.outgoing@.len() <= 1,
            !incoming_args ==> binding.incoming@.len() <= 1,
            incoming_args && binding.outgoing@.len() == 0 ==> binding.return_via_outptr is None
                && old(self).constructor is None,
            !incoming_args && binding.incoming@.len() == 0 ==> binding.return_via_outptr is None
                && old(self).constructor is None,
            incoming_args ==> (explicit_arg_names matches Some(names) ==> names@.len()
                + synth_count(binding.return_via_outptr is Some, old(self).method)
                >= webidl.params@.len()),
        ensures
            cx_preserved(*old(cx), *final(cx)),
            old(cx).debug ==> final(cx).exposed_log_error,
            final(self).catch == old(self).catch,
            final(self).constructor == old(self).constructor,
            final(self).method == old(self).method,
            r is Ok ==> return_shape_ok(*final(self)),
            r is Ok ==> final(self).ts_args@.len() <= final(self).function_args@.len(),
            r is Ok ==> (exists|invoc: Seq<char>|
                r->Ok_0@ == spec_finalize(*final(self), final(cx).debug, invoc)),
            r is Ok && incoming_args ==> starts_with(
                final(self).args_prelude@,
                synth_prelude(binding.return_via_outptr is Some, old(self).method),
            ),
            r is Ok && incoming_args ==> {
                let sc = synth_count(binding.return_via_outptr is Some, old(self).method);
                let n = if webidl.params@.len() >= sc {
                    webidl.params@.len() - sc
                } else {
                    0int
                };
                final(self).function_args@.len() == n && (forall|i: int|
                    0 <= i < n ==> (#[trigger] final(self).function_args@[i])@ == arg_name_at(
                        *explicit_arg_names,
                        i,
                    ))
            },
            r is Ok && !incoming_args ==> {
                let n = old(cx).type_param_counts@[binding.wasm_ty as int];
                final(self).function_args@.len() == n && (forall|i: int|
                    0 <= i < n ==> (#[trigger] final(self).function_args@[i])@ == "arg"@
                        + crate::text::dec_of(i as nat))
            },
            r is Ok && incoming_args && binding.return_via_outptr is Some
                && binding.outgoing@.len() > 0 ==> starts_with(
                final(self).ret_prelude@,
                mem_prelude(binding.return_via_outptr->0@, false, false, false),
            ),
            r is Ok ==> (binding.return_via_outptr matches Some(list) ==> (forall|i: int|
                0 <= i < list@.len() ==> agg_ty_ok(#[trigger] list@[i]))),
            r is Ok ==> (binding.return_via_outptr matches Some(list) ==> {
                &&& ((exists|i: int| 0 <= i < list@.len() && list@[i] == ValType::I32)
                    ==> final(cx).exposed_int32_memory)
                &&& ((exists|i: int| 0 <= i < list@.len() && list@[i] == ValType::F32)
                    ==> final(cx).exposed_f32_memory)
                &&& ((exists|i: int| 0 <= i < list@.len() && list@[i] == ValType::F64)
                    ==> final(cx).exposed_f64_memory)
            }),
            r is Ok && incoming_args ==> (final(self).ts_ret is Some <==> binding.outgoing@.len()
                > 0),
            r is Ok && !incoming_args ==> (final(self).ts_ret is Some <==> binding.incoming@.len()
                > 0),
            r is Ok && !incoming_args && binding.incoming@.len() > 0 ==> (
            binding.return_via_outptr matches Some(list) ==> (exists|
                exprs: Seq<Seq<char>>,
                suffix: Seq<char>,
            |
                exprs.len() == list@.len() && final(self).ret_finally@ == wb_const_lines(exprs)
                    + wb_store_lines(list@) + suffix)),
    {
        if cx.debug {
            cx.expose_log_error();
        }
        let ghost cx0 = *cx;
        let ghost synth = synth_prelude(binding.return_via_outptr is Some, self.method);
        let mut arg_names: Vec<String> = Vec::new();
        if incoming_args {
            let mut skipped: usize = 0;
            if binding.return_via_outptr.is_some() {
                skipped = skipped + 1;
                self.args_prelude.append("const retptr = 8;\n");
                arg_names.push(String::from_str("retptr"));
            }
            match self.method {
                Some(true) => {
                    skipped = skipped + 1;
                    self.args_prelude.append("const ptr = this.ptr;\n");
                    self.args_prelude.append("this.ptr = 0;\n");
                    arg_names.push(String::from_str("ptr"));
                },
                Some(false) => {
                    skipped = skipped + 1;
                    arg_names.push(String::from_str("this.ptr"));
                },
                None => {},
            }
            proof {
                assert(self.args_prelude@ =~= synth);
            }
            let total = webidl.params.len();
            let mut fnames: Vec<String> = Vec::new();
            let mut i: usize = 0;
            while skipped + i < total
                invariant
                    0 <= i,
                    skipped + i <= total || i == 0,
                    total == webidl.params@.len(),
                    skipped as int == synth_count(
                        binding.return_via_outptr is Some,
                        old(self).method,
                    ),
                    fnames@.len() == i,
                    arg_names@.len() == skipped + i,
                    forall|j: int|
                        0 <= j < i ==> (#[trigger] fnames@[j])@ == arg_name_at(
                            *explicit_arg_names,
                            j,
                        ),
                decreases total - i - skipped,
            {
                let name: String = match explicit_arg_names {
                    Some(list) => list[i].clone(),
                    None => {
                        let mut s = String::from_str("arg");
                        crate::text::append_dec(&mut s, i);
                        s
                    },
                };
                fnames.push(name.clone());
                arg_names.push(name);
                i = i + 1;
            }
            self.function_args = fnames;
            let mut js = JsBuilder::new(arg_names);
            let mut invoc_exprs: Vec<String> = Vec::new();
            let mut k: usize = 0;
            while k < binding.incoming.len()
                invariant
                    cx_preserved(cx0, *cx),
                decreases binding.incoming@.len() - k,
            {
                let ghost cxk = *cx;
                let got = eval.eval_incoming(cx, &webidl.params, &mut js, &binding.incoming[k]);
                proof {
                    lemma_cx_preserved_trans(cx0, cxk, *cx);
                }
                let mut exprs = match got {
                    Ok(e) => e,
                    Err(d) => {
                        return Err(d);
                    },
                };
                invoc_exprs.append(&mut exprs);
                k = k + 1;
            }
            self.invoc_args = invoc_exprs;
            self.args_prelude.append(js.prelude.as_str());
            self.finally.append(js.finally.as_str());
            let mut tsv = js.typescript;
            self.ts_args.append(&mut tsv);
            proof {
                assert(self.args_prelude@.subrange(0, synth.len() as int) =~= synth);
            }
        } else {
            let n = cx.type_param_counts[binding.wasm_ty];
            let mut fnames: Vec<String> = Vec::new();
            let mut i: usize = 0;
            while i < n
                invariant
                    0 <= i <= n,
                    fnames@.len() == i,
                    arg_names@.len() == i,
                    forall|j: int|
                        0 <= j < i ==> (#[trigger] fnames@[j])@ == "arg"@ + crate::text::dec_of(
                            j as nat,
                        ),
                decreases n - i,
            {
                let mut s = String::from_str("arg");
                crate::text::append_dec(&mut s, i);
                fnames.push(s.clone());
                arg_names.push(s);
                i = i + 1;
            }
            self.function_args = fnames;
            let mut js = JsBuilder::new(arg_names);
            let mut invoc_exprs: Vec<String> = Vec::new();
            let mut k: usize = if binding.return_via_outptr.is_some() {
                1
            } else {
                0
            };
            while k < binding.outgoing.len()
                invariant
                    cx_preserved(cx0, *cx),
                decreases binding.outgoing@.len() - k,
            {
                let ghost cxk = *cx;
                let got = eval.eval_outgoing(cx, &mut js, &binding.outgoing[k]);
                proof {
                    lemma_cx_preserved_trans(cx0, cxk, *cx);
                }
                match got {
                    Ok(expr) => {
                        invoc_exprs.push(expr);
                    },
                    Err(d) => {
                        return Err(d);
                    },
                }
                k = k + 1;
            }
            self.invoc_args = invoc_exprs;
            self.args_prelude.append(js.prelude.as_str());
            self.finally.append(js.finally.as_str());
            let mut tsv = js.typescript;
            self.ts_args.append(&mut tsv);
        }
        self.trim_ts_args();
        let no_ret = if incoming_args {
            binding.outgoing.len() == 0
        } else {
            binding.incoming.len() == 0
        };
        if no_ret {
            let ghost cxk = *cx;
            let got = invoke.invoke(cx, &mut self.args_prelude, &self.invoc_args);
            proof {
                lemma_cx_preserved_trans(cx0, cxk, *cx);
            }
            let invoc = match got {
                Ok(s) => s,
                Err(d) => {
                    return Err(d);
                },
            };
            proof {
                if incoming_args {
                    assert(self.args_prelude@.subrange(0, synth.len() as int) =~= synth);
                }
            }
            let out = self.finalize(cx.debug, invoc.as_str());
            proof {
                assert(out@ == spec_finalize(*self, cx.debug, invoc@));
            }
            return Ok(out);
        }
        if incoming_args {
            let mut ret_args: Vec<String> = Vec::new();
            let mut views = String::new();
            match &binding.return_via_outptr {
                Some(list) => {
                    let ghost cxm = *cx;
                    let built = Self::build_view_reads(cx, list);
                    proof {
                        lemma_cx_preserved_trans(cx0, cxm, *cx);
                    }
                    match built {
                        Ok(pair) => {
                            views = pair.0;
                            ret_args = pair.1;
                        },
                        Err(d) => {
                            return Err(d);
                        },
                    }
                },
                None => {
                    ret_args.push(String::from_str("ret"));
                },
            }
            self.ret_prelude.append(views.as_str());
            let ghost mem_pre = self.ret_prelude@;
            let mut js2 = JsBuilder::new(ret_args);
            let ghost cxk = *cx;
            let got = eval.eval_outgoing(cx, &mut js2, &binding.outgoing[0]);
            proof {
                lemma_cx_preserved_trans(cx0, cxk, *cx);
            }
            let ret_expr = match got {
                Ok(e) => e,
                Err(d) => {
                    return Err(d);
                },
            };
            self.ret_js.append(ret_expr.as_str());
            if js2.finally.as_str().unicode_len() > 0 {
                return Err(GenError::ReturnFinallyConflict);
            }
            self.ret_finally.append(js2.finally.as_str());
            self.ret_prelude.append(js2.prelude.as_str());
            if js2.typescript.len() == 0 {
                return Err(GenError::MissingReturnType);
            }
            let ts0 = js2.typescript.remove(0);
            self.ts_ret = Some(ts0);
            proof {
                if binding.return_via_outptr is Some {
                    assert(self.ret_prelude@.subrange(0, mem_pre.len() as int) =~= mem_pre);
                }
            }
        } else {
            let mut seed: Vec<String> = Vec::new();
            seed.push(String::from_str("ret"));
            let mut js2 = JsBuilder::new(seed);
            let results: Vec<T> = match &webidl.result {
                Some(t) => {
                    let mut v: Vec<T> = Vec::new();
                    v.push(t.clone());
                    v
                },
                None => Vec::new(),
            };
            let ghost cxk = *cx;
            let got = eval.eval_incoming(cx, &results, &mut js2, &binding.incoming[0]);
            proof {
                lemma_cx_preserved_trans(cx0, cxk, *cx);
            }
            let ret_list = match got {
                Ok(e) => e,
                Err(d) => {
                    return Err(d);
                },
            };
            match &binding.return_via_outptr {
                Some(list) => {
                    if list.len() != ret_list.len() {
                        return Err(GenError::ReturnCountMismatch);
                    }
                    let ghost cxm = *cx;
                    let built = Self::build_write_back(cx, &ret_list, list);
                    proof {
                        lemma_cx_preserved_trans(cx0, cxm, *cx);
                    }
                    let back = match built {
                        Ok(b) => b,
                        Err(d) => {
                            return Err(d);
                        },
                    };
                    self.ret_finally.append(back.as_str());
                },
                None => {
                    if ret_list.len() != 1 {
                        return Err(GenError::ReturnCountMismatch);
                    }
                    self.ret_js.append(ret_list[0].as_str());
                    if js2.finally.as_str().unicode_len() > 0 {
                        return Err(GenError::ReturnFinallyConflict);
                    }
                },
            }
            self.ret_finally.append(js2.finally.as_str());
            self.ret_prelude.append(js2.prelude.as_str());
            if js2.typescript.len() == 0 {
                return Err(GenError::MissingReturnType);
            }
            let ts0 = js2.typescript.remove(0);
            self.ts_ret = Some(ts0);
        }
        let ghost cxk2 = *cx;
        let got = invoke.invoke(cx, &mut self.args_prelude, &self.invoc_args);
        proof {
            lemma_cx_preserved_trans(cx0, cxk2, *cx);
        }
        let invoc = match got {
            Ok(s) => s,
            Err(d) => {
                return Err(d);
            },
        };
        proof {
            if incoming_args {
                assert(self.args_prelude@.subrange(0, synth.len() as int) =~= synth);
            }
        }
        let out = self.finalize(cx.debug, invoc.as_str());
        proof {
            assert(out@ == spec_finalize(*self, cx.debug, invoc@));
        }
        Ok(out)
    }
}

} // verus!
