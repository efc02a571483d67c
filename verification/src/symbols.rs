//! Deterministic, content-addressed symbol mangling.
//!
//! Every adapter symbol carries a short hash of the data that identifies it
//! (namespace, identifier, module), so that the same declaration always maps
//! to the same symbol, and different declarations are kept apart.  The hash
//! is a 64-bit FNV-1a over a canonical byte encoding of the inputs, rendered
//! as sixteen lower-case hexadecimal digits.

use crate::ast::ImportModule;
use crate::text::filter_alnum;
use crate::text::filter_alphanumeric;
use crate::text::hex16;
use crate::text::hex_of;
use vstd::prelude::*;
use vstd::string::StringExecFns;

verus! {

/// The FNV-1a offset basis.
pub open spec fn fnv_offset() -> u64 {
    0xcbf29ce484222325
}

/// One FNV-1a step: fold one byte into the state.
pub open spec fn fnv_step(h: u64, b: u8) -> u64 {
    vstd::wrapping::u64_specs::wrapping_mul(h ^ (b as u64), 0x100000001b3)
}

/// The FNV-1a hash of a byte sequence.
pub open spec fn fnv64(bytes: Seq<u8>) -> u64
    decreases bytes.len(),
{
    if bytes.len() == 0 {
        fnv_offset()
    } else {
        fnv_step(fnv64(bytes.drop_last()), bytes.last())
    }
}

/// Hashes the bytes of `v` with FNV-1a.
pub fn hash_bytes(v: &Vec<u8>) -> (r: u64)
    ensures
        r == fnv64(v@),
{
    let mut h: u64 = 0xcbf29ce484222325;
    let mut i: usize = 0;
    proof {
        assert(v@.subrange(0, 0) =~= Seq::<u8>::empty());
    }
    while i < v.len()
        invariant
            0 <= i <= v@.len(),
            h == fnv64(v@.subrange(0, i as int)),
        decreases v@.len() - i,
    {
        let x = h ^ (v[i] as u64);
        let next = x.wrapping_mul(0x100000001b3);
        proof {
            assert(next == fnv_step(h, v@[i as int]));
            assert(v@.subrange(0, i as int + 1).drop_last() =~= v@.subrange(0, i as int));
            assert(v@.subrange(0, i as int + 1).last() == v@[i as int]);
        }
        h = next;
        i = i + 1;
    }
    proof {
        assert(v@.subrange(0, v@.len() as int) =~= v@);
    }
    h
}

/// The little-endian four-byte encoding of `v`.
pub open spec fn enc_u32(v: u32) -> Seq<u8> {
    seq![
        (v % 256) as u8,
        ((v / 256) % 256) as u8,
        ((v / 65536) % 256) as u8,
        ((v / 16777216) % 256) as u8,
    ]
}

/// The little-endian eight-byte encoding of `v`.
pub open spec fn enc_u64(v: u64) -> Seq<u8> {
    enc_u32((v % 0x100000000) as u32) + enc_u32((v / 0x100000000) as u32)
}

/// The canonical encoding of a string: its length, then each character as a
/// four-byte code point.
pub open spec fn enc_chars(s: Seq<char>) -> Seq<u8>
    decreases s.len(),
{
    if s.len() == 0 {
        Seq::empty()
    } else {
        enc_chars(s.drop_last()) + enc_u32(s.last() as u32)
    }
}

/// The canonical encoding of a string: its length, then its characters.
pub open spec fn enc_str(s: Seq<char>) -> Seq<u8> {
    enc_u64(s.len() as u64) + enc_chars(s)
}

/// The canonical encoding of an import module: a tag, then the payload.
/// Source positions take no part in it.
pub open spec fn enc_module(m: ImportModule) -> Seq<u8> {
    match m {
        ImportModule::NoModule => seq![0u8],
        ImportModule::Named(s, sp) => seq![1u8] + enc_str(s@),
        ImportModule::RawNamed(s, sp) => seq![2u8] + enc_str(s@),
        ImportModule::Inline(i, sp) => seq![3u8] + enc_u64(i as u64),
    }
}

fn push_u32(out: &mut Vec<u8>, v: u32)
    ensures
        final(out)@ == old(out)@ + enc_u32(v),
{
    out.push((v % 256) as u8);
    out.push(((v / 256) % 256) as u8);
    out.push(((v / 65536) % 256) as u8);
    out.push(((v / 16777216) % 256) as u8);
    proof {
        assert(final(out)@ =~= old(out)@ + enc_u32(v));
    }
}

fn push_u64(out: &mut Vec<u8>, v: u64)
    ensures
        final(out)@ == old(out)@ + enc_u64(v),
{
    push_u32(out, (v % 0x100000000) as u32);
    push_u32(out, (v / 0x100000000) as u32);
    proof {
        assert(final(out)@ =~= old(out)@ + enc_u64(v));
    }
}

#[verifier::loop_isolation(false)]
fn push_str_enc(out: &mut Vec<u8>, s: &str)
    ensures
        final(out)@ == old(out)@ + enc_str(s@),
{
    let len = s.unicode_len();
    push_u64(out, len as u64);
    let mut i: usize = 0;
    proof {
        assert(s@.subrange(0, 0) =~= Seq::<char>::empty());
        assert(out@ =~= old(out)@ + enc_u64(s@.len() as u64) + enc_chars(s@.subrange(0, 0)));
    }
    while i < len
        invariant
            0 <= i <= len,
            out@ == old(out)@ + enc_u64(s@.len() as u64) + enc_chars(s@.subrange(0, i as int)),
        decreases len - i,
    {
        let c = s.get_char(i);
        push_u32(out, c as u32);
        proof {
            assert(s@.subrange(0, i as int + 1).drop_last() =~= s@.subrange(0, i as int));
            assert(s@.subrange(0, i as int + 1).last() == s@[i as int]);
            assert(out@ =~= old(out)@ + enc_u64(s@.len() as u64) + enc_chars(
                s@.subrange(0, i as int + 1),
            ));
        }
        i = i + 1;
    }
    proof {
        assert(s@.subrange(0, len as int) =~= s@);
        assert(out@ =~= old(out)@ + enc_str(s@));
    }
}

fn push_module_enc(out: &mut Vec<u8>, m: &ImportModule)
    ensures
        final(out)@ == old(out)@ + enc_module(*m),
{
    match m {
        ImportModule::NoModule => {
            out.push(0u8);
            proof {
                assert(final(out)@ =~= old(out)@ + enc_module(*m));
            }
        },
        ImportModule::Named(s, sp) => {
            out.push(1u8);
            push_str_enc(out, s.as_str());
            proof {
                assert(final(out)@ =~= old(out)@ + enc_module(*m));
            }
        },
        ImportModule::RawNamed(s, sp) => {
            out.push(2u8);
            push_str_enc(out, s.as_str());
            proof {
                assert(final(out)@ =~= old(out)@ + enc_module(*m));
            }
        },
        ImportModule::Inline(i, sp) => {
            out.push(3u8);
            push_u64(out, *i as u64);
            proof {
                assert(final(out)@ =~= old(out)@ + enc_module(*m));
            }
        },
    }
}

/// The hash input of an import-function symbol: the namespace pair, the
/// declared identifier, and the module.
pub open spec fn import_shim_data(
    ns_flag: u32,
    ns_name: Seq<char>,
    ident: Seq<char>,
    module: ImportModule,
) -> Seq<u8> {
    enc_u32(ns_flag) + enc_str(ns_name) + enc_str(ident) + enc_module(module)
}

/// The namespace pair of an import function: `(0, "n")` for a free function,
/// `(1, class)` for a method.
pub open spec fn spec_ns_flag(ns_class: Option<String>) -> u32 {
    match ns_class {
        Option::None => 0,
        Option::Some(c) => 1,
    }
}

/// The name half of the namespace pair.
pub open spec fn spec_ns_name(ns_class: Option<String>) -> Seq<char> {
    match ns_class {
        Option::None => "n"@,
        Option::Some(c) => c@,
    }
}

/// The mangled symbol of an imported function: `__wbg_`, the declared name
/// with everything but ASCII letters and digits removed, and the short hash
/// of (namespace, identifier, module).
pub open spec fn spec_import_function_shim(
    wasm_name: Seq<char>,
    ns_class: Option<String>,
    ident: Seq<char>,
    module: ImportModule,
) -> Seq<char> {
    "__wbg_"@ + filter_alnum(wasm_name) + "_"@ + hex_of(
        fnv64(
            import_shim_data(spec_ns_flag(ns_class), spec_ns_name(ns_class), ident, module),
        ) as nat,
        16,
    )
}

/// Builds the mangled symbol of an imported function.
pub fn import_function_shim(
    wasm_name: &str,
    ns_class: &Option<String>,
    ident: &str,
    module: &ImportModule,
) -> (r: String)
    ensures
        r@ == spec_import_function_shim(wasm_name@, *ns_class, ident@, *module),
{
    let mut data: Vec<u8> = Vec::new();
    match ns_class {
        Option::None => {
            push_u32(&mut data, 0);
            push_str_enc(&mut data, "n");
        },
        Option::Some(c) => {
            push_u32(&mut data, 1);
            push_str_enc(&mut data, c.as_str());
        },
    }
    push_str_enc(&mut data, ident);
    push_module_enc(&mut data, module);
    proof {
        assert(data@ =~= import_shim_data(
            spec_ns_flag(*ns_class),
            spec_ns_name(*ns_class),
            ident@,
            *module,
        ));
    }
    let h = hash_bytes(&data);
    let mut r = String::new();
    r.append("__wbg_");
    let filtered = filter_alphanumeric(wasm_name);
    r.append(filtered.as_str());
    r.append("_");
    let hx = hex16(h);
    r.append(hx.as_str());
    proof {
        assert(r@ =~= spec_import_function_shim(wasm_name@, *ns_class, ident@, *module));
    }
    r
}

/// The mangled symbol of an imported type's instance check:
/// `__wbg_instanceof_`, the identifier, and the short hash of the identifier.
pub open spec fn spec_instanceof_shim(ident: Seq<char>) -> Seq<char> {
    "__wbg_instanceof_"@ + ident + "_"@ + hex_of(fnv64(enc_str(ident)) as nat, 16)
}

/// Builds the mangled instance-check symbol of an imported type.
pub fn instanceof_shim(ident: &str) -> (r: String)
    ensures
        r@ == spec_instanceof_shim(ident@),
{
    let mut data: Vec<u8> = Vec::new();
    push_str_enc(&mut data, ident);
    proof {
        assert(data@ =~= enc_str(ident@));
    }
    let h = hash_bytes(&data);
    let mut r = String::new();
    r.append("__wbg_instanceof_");
    r.append(ident);
    r.append("_");
    let hx = hex16(h);
    r.append(hx.as_str());
    proof {
        assert(r@ =~= spec_instanceof_shim(ident@));
    }
    r
}

/// The hash input of a static accessor: the host name, the module, and the
/// declared identifier.
pub open spec fn static_shim_data(
    js_name: Seq<char>,
    module: ImportModule,
    ident: Seq<char>,
) -> Seq<u8> {
    enc_str(js_name) + enc_module(module) + enc_str(ident)
}

/// The mangled symbol of an imported static: `__wbg_static_accessor_`, the
/// identifier, and the short hash of (host name, module, identifier).
pub open spec fn spec_static_accessor_shim(
    ident: Seq<char>,
    js_name: Seq<char>,
    module: ImportModule,
) -> Seq<char> {
    "__wbg_static_accessor_"@ + ident + "_"@ + hex_of(
        fnv64(static_shim_data(js_name, module, ident)) as nat,
        16,
    )
}

/// Builds the mangled accessor symbol of an imported static.
pub fn static_accessor_shim(ident: &str, js_name: &str, module: &ImportModule) -> (r: String)
    ensures
        r@ == spec_static_accessor_shim(ident@, js_name@, *module),
{
    let mut data: Vec<u8> = Vec::new();
    push_str_enc(&mut data, js_name);
    push_module_enc(&mut data, module);
    push_str_enc(&mut data, ident);
    proof {
        assert(data@ =~= static_shim_data(js_name@, *module, ident@));
    }
    let h = hash_bytes(&data);
    let mut r = String::new();
    r.append("__wbg_static_accessor_");
    r.append(ident);
    r.append("_");
    let hx = hex16(h);
    r.append(hx.as_str());
    proof {
        assert(r@ =~= spec_static_accessor_shim(ident@, js_name@, *module));
    }
    r
}

/// The deterministic getter symbol of an exported struct field.
pub open spec fn spec_struct_field_get(js_class: Seq<char>, field: Seq<char>) -> Seq<char> {
    "__wbg_get_"@ + js_class + "_"@ + field
}

/// Builds the getter symbol of an exported struct field.
pub fn struct_field_get(js_class: &str, field: &str) -> (r: String)
    ensures
        r@ == spec_struct_field_get(js_class@, field@),
{
    let mut r = String::new();
    r.append("__wbg_get_");
    r.append(js_class);
    r.append("_");
    r.append(field);
    proof {
        assert(r@ =~= spec_struct_field_get(js_class@, field@));
    }
    r
}

/// The deterministic setter symbol of an exported struct field.
pub open spec fn spec_struct_field_set(js_class: Seq<char>, field: Seq<char>) -> Seq<char> {
    "__wbg_set_"@ + js_class + "_"@ + field
}

/// Builds the setter symbol of an exported struct field.
pub fn struct_field_set(js_class: &str, field: &str) -> (r: String)
    ensures
        r@ == spec_struct_field_set(js_class@, field@),
{
    let mut r = String::new();
    r.append("__wbg_set_");
    r.append(js_class);
    r.append("_");
    r.append(field);
    proof {
        assert(r@ =~= spec_struct_field_set(js_class@, field@));
    }
    r
}

/// Symbol round trip: the mangled symbol of an imported function is a pure
/// function of the declared name, the namespace, the identifier and the
/// module, so the same inputs give the byte-identical symbol on any two
/// occasions.
pub proof fn lemma_import_shim_deterministic(
    name_a: Seq<char>,
    ns_a: Option<String>,
    ident_a: Seq<char>,
    module_a: ImportModule,
    name_b: Seq<char>,
    ns_b: Option<String>,
    ident_b: Seq<char>,
    module_b: ImportModule,
)
    requires
        name_a == name_b,
        ns_a == ns_b,
        ident_a == ident_b,
        module_a == module_b,
    ensures
        spec_import_function_shim(name_a, ns_a, ident_a, module_a) == spec_import_function_shim(
            name_b,
            ns_b,
            ident_b,
            module_b,
        ),
{
}

} // verus!
