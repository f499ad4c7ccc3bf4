//! js-quickjs generator: TypeScript guest code for QuickJS, where 64-bit
//! values travel as lo/hi u32 pairs; Deno host callers; host-contract
//! interfaces, callers and factories; peer callers.
use crate::generators::lua::{
    bundle_plugins, contract_upper_name, derefs, find_enum, find_impl, find_impl_contract, impl_key, lua_contract_upper,
};
use crate::generators::manifest::{
    bundle_manifest, render_bundle_manifest, seq_lt, sort_dedup, sort_unique, views, MANIFEST_NO_BUNDLE,
};
use crate::generators::{
    bundle_dependencies, files_view, host_class_base, host_class_base_of, min_version_for, push_file, CodeGenerator,
    GeneratedFiles,
};
use crate::ir::{
    AbiBuiltin, EnumDef, EnumVariant, PrimitiveType, ReprType, ResolvedContract, ResolvedField, ResolvedFunction,
    ResolvedHostContract, ResolvedParam, ResolvedType, ResolvedTypeRef, ValidatedIr, guest_contract_id, guest_contract_id_of,
};
use crate::text::{
    lower_str,
    capitalise_first, capitalize, chars_of, concat_capitalized, dec_digits, dots_dashes_to_underscores, dots_to_underscores,
    hex_digits, pascal, push_capitalized, push_chars, push_hex16, push_pascal, push_u32, push_u64, push_usize,
    replace_chars, split_chars, split_seq, upper_str, to_uppercase,
};
use vstd::prelude::*;

verus! {

broadcast use vstd::string::group_string_axioms;

// ─── Type names ─────────────────────────────────────────────────────────────

/// The TypeScript spelling of a primitive in ABI shape (64-bit values as lo/hi).
pub open spec fn ts_prim(p: PrimitiveType) -> Seq<char> {
    match p {
        PrimitiveType::Bool => "boolean"@,
        PrimitiveType::U64 => "{ lo: number; hi: number }"@,
        PrimitiveType::I64 => "{ lo: number; hi: number }"@,
        _ => "number"@,
    }
}

/// The TypeScript spelling of a primitive in ABI shape.
pub fn ts_primitive(p: &PrimitiveType) -> (r: &'static str)
    ensures
        r@ == ts_prim(*p),
{
    match p {
        PrimitiveType::Bool => "boolean",
        PrimitiveType::U64 => "{ lo: number; hi: number }",
        PrimitiveType::I64 => "{ lo: number; hi: number }",
        _ => "number",
    }
}

/// The TypeScript spelling of a primitive for host interfaces.
pub fn ts_primitive_host(p: &PrimitiveType) -> (r: &'static str)
    ensures
        r@ == ts_prim(*p),
{
    ts_primitive(p)
}

/// The TypeScript spelling of a primitive for guest callers.
pub fn ts_primitive_guest(p: &PrimitiveType) -> (r: &'static str)
    ensures
        r@ == ts_prim(*p),
{
    ts_primitive(p)
}

/// The TypeScript shape of an ABI builtin.
pub open spec fn ts_abi(b: AbiBuiltin) -> Seq<char> {
    match b {
        AbiBuiltin::StringView => "{ ptr_lo: number; ptr_hi: number; len: number }"@,
        AbiBuiltin::Buffer => "{ ptr_lo: number; ptr_hi: number; len: number; cap: number }"@,
        AbiBuiltin::Ptr => "{ lo: number; hi: number }"@,
        AbiBuiltin::Void => "void"@,
    }
}

/// The TypeScript shape of an ABI builtin.
pub fn ts_abi_builtin(b: &AbiBuiltin) -> (r: &'static str)
    ensures
        r@ == ts_abi(*b),
{
    match b {
        AbiBuiltin::StringView => "{ ptr_lo: number; ptr_hi: number; len: number }",
        AbiBuiltin::Buffer => "{ ptr_lo: number; ptr_hi: number; len: number; cap: number }",
        AbiBuiltin::Ptr => "{ lo: number; hi: number }",
        AbiBuiltin::Void => "void",
    }
}

/// The TypeScript spelling of a type reference in ABI shape.
pub open spec fn ts_type(ty: ResolvedTypeRef) -> Seq<char> {
    match ty {
        ResolvedTypeRef::Primitive(p) => ts_prim(p),
        ResolvedTypeRef::AbiType(b) => ts_abi(b),
        ResolvedTypeRef::UserDefined(name) => name@,
    }
}

/// The TypeScript spelling of a type reference in ABI shape.
pub fn ts_type_ref(ty: &ResolvedTypeRef) -> (r: String)
    ensures
        r@ == ts_type(*ty),
{
    match ty {
        ResolvedTypeRef::Primitive(p) => ts_primitive(p).to_owned(),
        ResolvedTypeRef::AbiType(b) => ts_abi_builtin(b).to_owned(),
        ResolvedTypeRef::UserDefined(name) => name.as_str().to_owned(),
    }
}

/// The ergonomic TypeScript type of a host-interface or guest-caller value:
/// strings and byte arrays for views and buffers.
pub open spec fn ts_ergonomic(ty: ResolvedTypeRef) -> Seq<char> {
    match ty {
        ResolvedTypeRef::AbiType(AbiBuiltin::StringView) => "string"@,
        ResolvedTypeRef::AbiType(AbiBuiltin::Buffer) => "Uint8Array"@,
        _ => ts_type(ty),
    }
}

/// The type of a host interface method parameter.
pub fn ts_host_param_type(ty: &ResolvedTypeRef) -> (r: String)
    ensures
        r@ == ts_ergonomic(*ty),
{
    match ty {
        ResolvedTypeRef::AbiType(AbiBuiltin::StringView) => "string".to_owned(),
        ResolvedTypeRef::AbiType(AbiBuiltin::Buffer) => "Uint8Array".to_owned(),
        _ => ts_type_ref(ty),
    }
}

/// The return type of a host interface method (the parameter mapping).
pub fn ts_host_return_type(ty: &ResolvedTypeRef) -> (r: String)
    ensures
        r@ == ts_ergonomic(*ty),
{
    ts_host_param_type(ty)
}

/// The type of a guest caller method parameter.
pub fn ts_guest_caller_param_type(ty: &ResolvedTypeRef) -> (r: String)
    ensures
        r@ == ts_ergonomic(*ty),
{
    ts_host_param_type(ty)
}

/// The raw ABI return type of a peer caller method.
pub open spec fn ts_peer_raw(ty: ResolvedTypeRef) -> Seq<char> {
    match ty {
        ResolvedTypeRef::Primitive(PrimitiveType::U64) => "{ lo: number; hi: number }"@,
        ResolvedTypeRef::Primitive(PrimitiveType::I64) => "{ lo: number; hi: number }"@,
        ResolvedTypeRef::Primitive(_) => "number"@,
        _ => ts_type(ty),
    }
}

/// The raw ABI return type of a peer caller method.
pub fn ts_peer_raw_return_type(ty: &ResolvedTypeRef) -> (r: String)
    ensures
        r@ == ts_peer_raw(*ty),
{
    match ty {
        ResolvedTypeRef::Primitive(PrimitiveType::U64) => "{ lo: number; hi: number }".to_owned(),
        ResolvedTypeRef::Primitive(PrimitiveType::I64) => "{ lo: number; hi: number }".to_owned(),
        ResolvedTypeRef::Primitive(_) => "number".to_owned(),
        _ => ts_type_ref(ty),
    }
}

// ─── Names ──────────────────────────────────────────────────────────────────

/// `image.decode` -> `ImageDecode`.
pub fn contract_to_class_name(contract_name: &str) -> (r: String)
    ensures
        r@ == pascal(contract_name@, '.'),
{
    let v: Vec<char> = chars_of(contract_name);
    let mut r: String = String::new();
    push_pascal(&mut r, &v, '.');
    r
}

/// The TypeScript interface a host implements for a host contract.
pub fn host_contract_name_to_ts_interface(name: &str) -> (r: String)
    ensures
        r@ == host_class_base(name@),
{
    host_class_base_of(name)
}

/// The class a guest calls a host contract through.
pub open spec fn ts_host_caller(name: Seq<char>) -> Seq<char> {
    host_class_base(name) + "Contract"@
}

/// The class a guest calls a host contract through.
pub fn host_contract_name_to_ts_caller(name: &str) -> (r: String)
    ensures
        r@ == ts_host_caller(name@),
{
    let mut r: String = host_class_base_of(name);
    r.append("Contract");
    r
}

/// A name split at `_` and `.`, each piece capitalised, joined.
pub open spec fn ts_pascal(name: Seq<char>) -> Seq<char> {
    pascal(replace_chars(name, seq!['.'], '_'), '_')
}

/// A name split at `_` and `.`, each piece capitalised, joined.
pub fn host_method_pascal_case(name: &str) -> (r: String)
    ensures
        r@ == ts_pascal(name@),
{
    let s: String = dots_to_underscores(name);
    let v: Vec<char> = chars_of(s.as_str());
    let mut r: String = String::new();
    push_pascal(&mut r, &v, '_');
    r
}

/// The last dot-separated piece of a guest contract name, capitalised, with `Peer`.
pub open spec fn ts_peer_class(name: Seq<char>) -> Seq<char> {
    capitalize(split_seq(name, '.').last()) + "Peer"@
}

/// `pipeline.Validator` -> `ValidatorPeer`.
pub fn guest_contract_name_to_ts_peer(name: &str) -> (r: String)
    ensures
        r@ == ts_peer_class(name@),
{
    let v: Vec<char> = chars_of(name);
    let pieces: Vec<Vec<char>> = split_chars(&v, '.');
    proof {
        crate::text::lemma_split_nonempty(name@, '.');
    }
    let last: &Vec<char> = &pieces[pieces.len() - 1];
    let mut r: String = String::new();
    push_capitalized(&mut r, last);
    r.append("Peer");
    r
}

/// A plugin name upper-cased with dots and dashes as underscores.
pub open spec fn ts_plugin_var(name: Seq<char>) -> Seq<char> {
    lua_contract_upper(name)
}

/// `set<Plugin>Factory`: the plugin name with dots and dashes as underscores,
/// split at underscores, each piece capitalised.
pub open spec fn ts_set_factory(name: Seq<char>) -> Seq<char> {
    "set"@ + pascal(replace_chars(name, seq!['.', '-'], '_'), '_') + "Factory"@
}

fn set_factory_name_of(name: &str) -> (r: String)
    ensures
        r@ == ts_set_factory(name@),
{
    let s: String = dots_dashes_to_underscores(name);
    let v: Vec<char> = chars_of(s.as_str());
    let mut r: String = String::new();
    r.append("set");
    push_pascal(&mut r, &v, '_');
    r.append("Factory");
    r
}

// ─── Enums and types.ts ─────────────────────────────────────────────────────

/// Replace references to declared variants in a value expression by the
/// referenced value in parentheses.
pub fn substitute_variant_refs_js(declared_variants: &Vec<EnumVariant>, expr: &str) -> (r: String)
    ensures
        r@ == crate::generators::enum_values::substitute_refs(declared_variants@, expr@, None),
{
    crate::generators::enum_values::substitute_refs_with(declared_variants, expr, None)
}

/// One `    <Name>: <value>,` line per variant.
pub open spec fn js_enum_entries(acc: Seq<char>, all: Seq<EnumVariant>, vars: Seq<EnumVariant>) -> Seq<char>
    decreases vars.len(),
{
    if vars.len() == 0 {
        acc
    } else {
        js_enum_entries(acc, all, vars.drop_last()) + "    "@ + vars.last().name@ + ": "@
            + crate::generators::enum_values::substitute_refs(all, vars.last().value@, None) + ",\n"@
    }
}

/// A contract enum as a frozen object and a type of its values.
pub open spec fn js_enum(acc: Seq<char>, e: EnumDef) -> Seq<char> {
    let n = e.name@;
    let head = if e.bitflag {
        acc + "/** @bitflag Enum "@ + n + " */\n"@
    } else {
        acc + "/** Enum "@ + n + " */\n"@
    };
    js_enum_entries(head + "export const "@ + n + " = Object.freeze({\n"@, e.variants@, e.variants@) + "} as const);\n"@
        + "export type "@ + n + " = typeof "@ + n + "[keyof typeof "@ + n + "];\n\n"@
}

/// Emit a contract enum as a frozen object and a type of its values.
pub fn generate_js_quickjs_enum(out: &mut String, e: &EnumDef)
    ensures
        final(out)@ == js_enum(old(out)@, *e),
{
    let n: &str = e.name.as_str();
    if e.bitflag {
        out.append("/** @bitflag Enum ");
    } else {
        out.append("/** Enum ");
    }
    out.append(n);
    out.append(" */\n");
    out.append("export const ");
    out.append(n);
    out.append(" = Object.freeze({\n");
    let ghost s0 = out@;
    let k: usize = e.variants.len();
    let mut i: usize = 0;
    while i < k
        invariant
            k == e.variants@.len(),
            i <= k,
            out@ == js_enum_entries(s0, e.variants@, e.variants@.take(i as int)),
        decreases k - i,
    {
        let v: String = substitute_variant_refs_js(&e.variants, e.variants[i].value.as_str());
        out.append("    ");
        out.append(e.variants[i].name.as_str());
        out.append(": ");
        out.append(v.as_str());
        out.append(",\n");
        assert(e.variants@.take(i + 1).drop_last() =~= e.variants@.take(i as int));
        i = i + 1;
    }
    assert(e.variants@.take(k as int) =~= e.variants@);
    out.append("} as const);\n");
    out.append("export type ");
    out.append(n);
    out.append(" = typeof ");
    out.append(n);
    out.append("[keyof typeof ");
    out.append(n);
    out.append("];\n\n");
}

/// `    readonly <name>: <type>;` for one field.
pub open spec fn js_field(acc: Seq<char>, f: ResolvedField) -> Seq<char> {
    acc + "    readonly "@ + f.name@ + ": "@ + ts_type(f.ty) + ";\n"@
}

/// Emit one field of a user type's interface.
pub fn render_resolved_field(out: &mut String, field: &ResolvedField)
    ensures
        final(out)@ == js_field(old(out)@, *field),
{
    let t: String = ts_type_ref(&field.ty);
    out.append("    readonly ");
    out.append(field.name.as_str());
    out.append(": ");
    out.append(t.as_str());
    out.append(";\n");
}

/// The fields of a user type's interface.
pub open spec fn js_fields(acc: Seq<char>, fields: Seq<ResolvedField>) -> Seq<char>
    decreases fields.len(),
{
    if fields.len() == 0 {
        acc
    } else {
        js_field(js_fields(acc, fields.drop_last()), fields.last())
    }
}

/// A user type as an exported interface.
pub open spec fn js_interface_decl(acc: Seq<char>, t: ResolvedType) -> Seq<char> {
    js_fields(acc + "export interface "@ + t.name@ + " {\n"@, t.fields@) + "}\n\n"@
}

/// Emit a user type as an exported interface.
pub fn render_resolved_type(out: &mut String, type_def: &ResolvedType)
    ensures
        final(out)@ == js_interface_decl(old(out)@, *type_def),
{
    out.append("export interface ");
    out.append(type_def.name.as_str());
    out.append(" {\n");
    let ghost s0 = out@;
    let n: usize = type_def.fields.len();
    let mut i: usize = 0;
    while i < n
        invariant
            n == type_def.fields@.len(),
            i <= n,
            out@ == js_fields(s0, type_def.fields@.take(i as int)),
        decreases n - i,
    {
        render_resolved_field(out, &type_def.fields[i]);
        assert(type_def.fields@.take(i + 1).drop_last() =~= type_def.fields@.take(i as int));
        i = i + 1;
    }
    assert(type_def.fields@.take(n as int) =~= type_def.fields@);
    out.append("}\n\n");
}

/// `name: type` for every parameter (ABI shapes), joined with `", "`.
pub open spec fn ts_params(params: Seq<ResolvedParam>, ergonomic: bool) -> Seq<char>
    decreases params.len(),
{
    if params.len() == 0 {
        Seq::<char>::empty()
    } else {
        let p = params.last();
        let t = if ergonomic {
            ts_ergonomic(p.ty)
        } else {
            ts_type(p.ty)
        };
        if params.len() == 1 {
            p.name@ + ": "@ + t
        } else {
            ts_params(params.drop_last(), ergonomic) + ", "@ + p.name@ + ": "@ + t
        }
    }
}

fn push_ts_params(out: &mut String, params: &Vec<ResolvedParam>, ergonomic: bool)
    ensures
        final(out)@ == old(out)@ + ts_params(params@, ergonomic),
{
    let n: usize = params.len();
    let mut i: usize = 0;
    while i < n
        invariant
            n == params@.len(),
            i <= n,
            out@ == old(out)@ + ts_params(params@.take(i as int), ergonomic),
        decreases n - i,
    {
        if i > 0 {
            out.append(", ");
        }
        out.append(params[i].name.as_str());
        out.append(": ");
        let t: String = if ergonomic {
            ts_host_param_type(&params[i].ty)
        } else {
            ts_type_ref(&params[i].ty)
        };
        out.append(t.as_str());
        proof {
            assert(params@.take(i + 1).drop_last() =~= params@.take(i as int));
            if i == 0 {
                assert(ts_params(params@.take(0), ergonomic) =~= Seq::<char>::empty());
            }
        }
        i = i + 1;
    }
    assert(params@.take(n as int) =~= params@);
}

/// A function's return type in ABI shape, `void` when it returns nothing.
pub open spec fn ts_ret(ret: Option<ResolvedTypeRef>) -> Seq<char> {
    match ret {
        Some(t) => ts_type(t),
        None => "void"@,
    }
}

fn ts_ret_name(ret: &Option<ResolvedTypeRef>) -> (r: String)
    ensures
        r@ == ts_ret(*ret),
{
    match ret {
        Some(t) => ts_type_ref(t),
        None => "void".to_owned(),
    }
}

/// `export type <contract>_<fn> = (<params>) => <ret>;` for every function.
pub open spec fn js_contract_types(acc: Seq<char>, cname: Seq<char>, funcs: Seq<ResolvedFunction>) -> Seq<char>
    decreases funcs.len(),
{
    if funcs.len() == 0 {
        acc
    } else {
        let f = funcs.last();
        js_contract_types(acc, cname, funcs.drop_last()) + "export type "@ + replace_chars(cname, seq!['.'], '_') + "_"@ + f.name@
            + " = ("@ + ts_params(f.params@, false) + ") => "@ + ts_ret(f.returns) + ";\n"@
    }
}

/// Emit a function type per function of a contract.
pub fn render_contract_types(out: &mut String, contract: &ResolvedContract)
    ensures
        final(out)@ == js_contract_types(old(out)@, contract.name@, contract.functions@),
{
    let prefix: String = dots_to_underscores(contract.name.as_str());
    let n: usize = contract.functions.len();
    let mut i: usize = 0;
    while i < n
        invariant
            n == contract.functions@.len(),
            i <= n,
            prefix@ == replace_chars(contract.name@, seq!['.'], '_'),
            out@ == js_contract_types(old(out)@, contract.name@, contract.functions@.take(i as int)),
        decreases n - i,
    {
        let f: &ResolvedFunction = &contract.functions[i];
        out.append("export type ");
        out.append(prefix.as_str());
        out.append("_");
        out.append(f.name.as_str());
        out.append(" = (");
        push_ts_params(out, &f.params, false);
        out.append(") => ");
        let r: String = ts_ret_name(&f.returns);
        out.append(r.as_str());
        out.append(";\n");
        assert(contract.functions@.take(i + 1).drop_last() =~= contract.functions@.take(i as int));
        i = i + 1;
    }
    assert(contract.functions@.take(n as int) =~= contract.functions@);
}

/// The first lines of the QuickJS guest files.
pub const JS_HEADER: &'static str = "// THIS FILE IS AUTO-GENERATED BY polyplugc\n// DO NOT EDIT BY HAND\n// Runtime: js-quickjs\n\n";

/// Every enum, in order.
pub open spec fn js_enums(acc: Seq<char>, enums: Seq<EnumDef>) -> Seq<char>
    decreases enums.len(),
{
    if enums.len() == 0 {
        acc
    } else {
        js_enum(js_enums(acc, enums.drop_last()), enums.last())
    }
}

/// Every user type, in order.
pub open spec fn js_interfaces(acc: Seq<char>, types: Seq<ResolvedType>) -> Seq<char>
    decreases types.len(),
{
    if types.len() == 0 {
        acc
    } else {
        js_interface_decl(js_interfaces(acc, types.drop_last()), types.last())
    }
}

/// Every contract's function types, in order.
pub open spec fn js_all_contract_types(acc: Seq<char>, contracts: Seq<ResolvedContract>) -> Seq<char>
    decreases contracts.len(),
{
    if contracts.len() == 0 {
        acc
    } else {
        let c = contracts.last();
        js_contract_types(js_all_contract_types(acc, contracts.drop_last()), c.name@, c.functions@)
    }
}

/// `types.ts`: enums, user types and contract function types.
pub open spec fn js_types_ts(ir: ValidatedIr) -> Seq<char> {
    js_all_contract_types(js_interfaces(js_enums(JS_HEADER@, ir.enums@), ir.types@), ir.contracts@)
}

/// Generate `types.ts` for host and guest alike.
pub fn generate_types_ts(ir: &ValidatedIr) -> (r: String)
    ensures
        r@ == js_types_ts(*ir),
{
    let mut out: String = String::new();
    out.append(JS_HEADER);
    let ghost s0 = out@;
    let ne: usize = ir.enums.len();
    let mut i: usize = 0;
    while i < ne
        invariant
            ne == ir.enums@.len(),
            i <= ne,
            out@ == js_enums(s0, ir.enums@.take(i as int)),
        decreases ne - i,
    {
        generate_js_quickjs_enum(&mut out, &ir.enums[i]);
        assert(ir.enums@.take(i + 1).drop_last() =~= ir.enums@.take(i as int));
        i = i + 1;
    }
    assert(ir.enums@.take(ne as int) =~= ir.enums@);
    let ghost s1 = out@;
    let nt: usize = ir.types.len();
    let mut j: usize = 0;
    while j < nt
        invariant
            nt == ir.types@.len(),
            j <= nt,
            out@ == js_interfaces(s1, ir.types@.take(j as int)),
        decreases nt - j,
    {
        render_resolved_type(&mut out, &ir.types[j]);
        assert(ir.types@.take(j + 1).drop_last() =~= ir.types@.take(j as int));
        j = j + 1;
    }
    assert(ir.types@.take(nt as int) =~= ir.types@);
    let ghost s2 = out@;
    let nc: usize = ir.contracts.len();
    let mut k: usize = 0;
    while k < nc
        invariant
            nc == ir.contracts@.len(),
            k <= nc,
            out@ == js_all_contract_types(s2, ir.contracts@.take(k as int)),
        decreases nc - k,
    {
        render_contract_types(&mut out, &ir.contracts[k]);
        assert(ir.contracts@.take(k + 1).drop_last() =~= ir.contracts@.take(k as int));
        k = k + 1;
    }
    assert(ir.contracts@.take(nc as int) =~= ir.contracts@);
    out
}

// ─── interface.ts, index.ts, init.ts, manifest, README ──────────────────────

/// `export { <PLUGIN>_INTERFACE } from './contracts';` for every plugin.
pub open spec fn js_interface_exports(acc: Seq<char>, plugins: Seq<crate::ir::ResolvedPlugin>) -> Seq<char>
    decreases plugins.len(),
{
    if plugins.len() == 0 {
        acc
    } else {
        js_interface_exports(acc, plugins.drop_last()) + "export { "@ + ts_plugin_var(plugins.last().name@)
            + "_INTERFACE } from './contracts';\n"@
    }
}

fn push_interface_exports(out: &mut String, plugins: &Vec<crate::ir::ResolvedPlugin>)
    ensures
        final(out)@ == js_interface_exports(old(out)@, plugins@),
{
    let n: usize = plugins.len();
    let mut i: usize = 0;
    while i < n
        invariant
            n == plugins@.len(),
            i <= n,
            out@ == js_interface_exports(old(out)@, plugins@.take(i as int)),
        decreases n - i,
    {
        let var: String = contract_upper_name(plugins[i].name.as_str());
        out.append("export { ");
        out.append(var.as_str());
        out.append("_INTERFACE } from './contracts';\n");
        assert(plugins@.take(i + 1).drop_last() =~= plugins@.take(i as int));
        i = i + 1;
    }
    assert(plugins@.take(n as int) =~= plugins@);
}

/// `guest/interface.ts`: the plugin interfaces re-exported.
pub open spec fn js_interface_ts(ir: ValidatedIr) -> Seq<char> {
    match ir.bundle {
        Some(b) => js_interface_exports(JS_HEADER@ + "// Re-export interfaces from contracts.ts\n"@, b.plugins@),
        None => JS_HEADER@,
    }
}

/// Generate `guest/interface.ts`.
pub fn generate_interface_ts(ir: &ValidatedIr) -> (r: String)
    ensures
        r@ == js_interface_ts(*ir),
{
    let mut out: String = String::new();
    out.append(JS_HEADER);
    match &ir.bundle {
        Some(b) => {
            out.append("// Re-export interfaces from contracts.ts\n");
            push_interface_exports(&mut out, &b.plugins);
        },
        None => {},
    }
    out
}

/// `export { set<Plugin>Factory } from './contracts';` for every plugin.
pub open spec fn js_factory_exports(acc: Seq<char>, plugins: Seq<crate::ir::ResolvedPlugin>) -> Seq<char>
    decreases plugins.len(),
{
    if plugins.len() == 0 {
        acc
    } else {
        js_factory_exports(acc, plugins.drop_last()) + "export { "@ + ts_set_factory(plugins.last().name@)
            + " } from './contracts';\n"@
    }
}

/// `export { <Peer> } from './peer_callers';` for every peer contract.
pub open spec fn js_peer_exports(acc: Seq<char>, peers: Seq<ResolvedContract>) -> Seq<char>
    decreases peers.len(),
{
    if peers.len() == 0 {
        acc
    } else {
        js_peer_exports(acc, peers.drop_last()) + "export { "@ + ts_peer_class(peers.last().name@) + " } from './peer_callers';\n"@
    }
}

/// `guest/index.ts`: the entry point and the re-exports of interfaces,
/// factory setters and peer callers.
pub open spec fn js_index_ts(ir: ValidatedIr) -> Seq<char> {
    let head = JS_HEADER@ + "// Main entry point for bundling\n"@ + "export { polyplug_init } from './init';\n"@;
    let body = match ir.bundle {
        Some(b) => js_factory_exports(js_interface_exports(head, b.plugins@), b.plugins@),
        None => head,
    };
    js_peer_exports(body, crate::generators::peer_contracts(&ir))
}

/// Generate `guest/index.ts`.
pub fn generate_index_ts(ir: &ValidatedIr) -> (r: String)
    ensures
        r@ == js_index_ts(*ir),
{
    let mut out: String = String::new();
    out.append(JS_HEADER);
    out.append("// Main entry point for bundling\n");
    out.append("export { polyplug_init } from './init';\n");
    match &ir.bundle {
        Some(b) => {
            push_interface_exports(&mut out, &b.plugins);
            let ghost s0 = out@;
            let n: usize = b.plugins.len();
            let mut i: usize = 0;
            while i < n
                invariant
                    n == b.plugins@.len(),
                    i <= n,
                    out@ == js_factory_exports(s0, b.plugins@.take(i as int)),
                decreases n - i,
            {
                let f: String = set_factory_name_of(b.plugins[i].name.as_str());
                out.append("export { ");
                out.append(f.as_str());
                out.append(" } from './contracts';\n");
                assert(b.plugins@.take(i + 1).drop_last() =~= b.plugins@.take(i as int));
                i = i + 1;
            }
            assert(b.plugins@.take(n as int) =~= b.plugins@);
        },
        None => {},
    }
    let peers: Vec<&ResolvedContract> = crate::generators::collect_peer_contracts(ir);
    let ghost ps = derefs(peers@);
    assert(ps == crate::generators::peer_contracts(ir));
    let ghost s1 = out@;
    let np: usize = peers.len();
    let mut k: usize = 0;
    while k < np
        invariant
            np == peers@.len(),
            ps == derefs(peers@),
            k <= np,
            out@ == js_peer_exports(s1, ps.take(k as int)),
        decreases np - k,
    {
        let c: String = guest_contract_name_to_ts_peer(peers[k].name.as_str());
        out.append("export { ");
        out.append(c.as_str());
        out.append(" } from './peer_callers';\n");
        assert(ps.take(k + 1).drop_last() =~= ps.take(k as int));
        assert(ps.take(k + 1).last() == *peers@[k as int]);
        k = k + 1;
    }
    assert(ps.take(np as int) =~= ps);
    out
}


/// `    <PLUGIN>_INTERFACE` for every plugin, joined with `,\n`.
pub open spec fn js_init_imports(plugins: Seq<crate::ir::ResolvedPlugin>) -> Seq<char>
    decreases plugins.len(),
{
    if plugins.len() == 0 {
        Seq::<char>::empty()
    } else {
        let line = "    "@ + ts_plugin_var(plugins.last().name@) + "_INTERFACE"@;
        if plugins.len() == 1 {
            line
        } else {
            js_init_imports(plugins.drop_last()) + ",\n"@ + line
        }
    }
}

/// The registration of one plugin in `polyplug_init`.
pub open spec fn js_init_registration(acc: Seq<char>, p: crate::ir::ResolvedPlugin) -> Seq<char> {
    let var = ts_plugin_var(p.name@);
    acc + "    // Register plugin: "@ + p.name@
        + "\n    registrations.push({\n        contractLo: "@ + var + "_INTERFACE.contractLo,\n        contractHi: "@
        + var + "_INTERFACE.contractHi,\n        interface: "@ + var
        + "_INTERFACE,\n        fnCount: "@ + var + "_INTERFACE.fnCount,\n        contractName: "@
        + var + "_INTERFACE.contractName,\n        version: "@ + var
        + "_INTERFACE.version,\n    });\n\n"@
}

/// The registrations of every plugin.
pub open spec fn js_init_registrations(acc: Seq<char>, plugins: Seq<crate::ir::ResolvedPlugin>) -> Seq<char>
    decreases plugins.len(),
{
    if plugins.len() == 0 {
        acc
    } else {
        js_init_registration(js_init_registrations(acc, plugins.drop_last()), plugins.last())
    }
}

/// What `guest/init.ts` holds when there is no bundle.
pub const JS_INIT_NO_BUNDLE: &'static str = "// ERROR: init.ts called without bundle IR\n";

/// `guest/init.ts`: `polyplug_init` returning one registration per plugin.
pub open spec fn js_init_ts(ir: ValidatedIr) -> Seq<char> {
    match ir.bundle {
        Some(b) => js_init_registrations(
            JS_HEADER@ + "import {\n"@ + js_init_imports(b.plugins@) + JS_INIT_PREAMBLE@,
            b.plugins@,
        ) + "    return [registrations, { code: AbiErrorCode.Ok, message: \"\" }];\n}\n"@,
        None => JS_INIT_NO_BUNDLE@,
    }
}

/// Generate `guest/init.ts`.
pub fn generate_init_ts(ir: &ValidatedIr) -> (r: String)
    ensures
        r@ == js_init_ts(*ir),
{
    let b: &crate::ir::ResolvedBundle = match &ir.bundle {
        Some(b) => b,
        None => {
            return JS_INIT_NO_BUNDLE.to_owned();
        },
    };
    let mut out: String = String::new();
    out.append(JS_HEADER);
    out.append("import {\n");
    let ghost s0 = out@;
    let n: usize = b.plugins.len();
    let mut i: usize = 0;
    while i < n
        invariant
            n == b.plugins@.len(),
            i <= n,
            out@ == s0 + js_init_imports(b.plugins@.take(i as int)),
        decreases n - i,
    {
        if i > 0 {
            out.append(",\n");
        }
        let var: String = contract_upper_name(b.plugins[i].name.as_str());
        out.append("    ");
        out.append(var.as_str());
        out.append("_INTERFACE");
        proof {
            assert(b.plugins@.take(i + 1).drop_last() =~= b.plugins@.take(i as int));
            if i == 0 {
                assert(js_init_imports(b.plugins@.take(0)) =~= Seq::<char>::empty());
            }
        }
        i = i + 1;
    }
    assert(b.plugins@.take(n as int) =~= b.plugins@);
    out.append(JS_INIT_PREAMBLE);
    let ghost s1 = out@;
    let mut j: usize = 0;
    while j < n
        invariant
            n == b.plugins@.len(),
            j <= n,
            out@ == js_init_registrations(s1, b.plugins@.take(j as int)),
        decreases n - j,
    {
        let p: &crate::ir::ResolvedPlugin = &b.plugins[j];
        let var: String = contract_upper_name(p.name.as_str());
        out.append("    // Register plugin: ");
        out.append(p.name.as_str());
        out.append("\n    registrations.push({\n        contractLo: ");
        out.append(var.as_str());
        out.append("_INTERFACE.contractLo,\n        contractHi: ");
        out.append(var.as_str());
        out.append("_INTERFACE.contractHi,\n        interface: ");
        out.append(var.as_str());
        out.append("_INTERFACE,\n        fnCount: ");
        out.append(var.as_str());
        out.append("_INTERFACE.fnCount,\n        contractName: ");
        out.append(var.as_str());
        out.append("_INTERFACE.contractName,\n        version: ");
        out.append(var.as_str());
        out.append("_INTERFACE.version,\n    });\n\n");
        assert(b.plugins@.take(j + 1).drop_last() =~= b.plugins@.take(j as int));
        j = j + 1;
    }
    assert(b.plugins@.take(n as int) =~= b.plugins@);
    out.append("    return [registrations, { code: AbiErrorCode.Ok, message: \"\" }];\n}\n");
    out
}

/// `manifest.toml` of a QuickJS bundle: the bundle's loader names it.
pub open spec fn js_manifest(ir: ValidatedIr) -> Seq<char> {
    match ir.bundle {
        Some(b) => bundle_manifest(b, ir.contracts@, "loader = \""@ + b.loader@ + "\"\n"@),
        None => MANIFEST_NO_BUNDLE@,
    }
}

/// Generate the discovery `manifest.toml` of a QuickJS bundle.
pub fn generate_manifest_toml(ir: &ValidatedIr) -> (r: String)
    ensures
        r@ == js_manifest(*ir),
{
    match &ir.bundle {
        Some(b) => {
            let mut origin: String = String::new();
            origin.append("loader = \"");
            origin.append(b.loader.as_str());
            origin.append("\"\n");
            render_bundle_manifest(b, &ir.contracts, origin.as_str())
        },
        None => MANIFEST_NO_BUNDLE.to_owned(),
    }
}

/// How to build the bundle, after the title line.
pub const JS_README_BODY: &'static str = "\n\n## Requirements\n- rolldown: `npm i -g rolldown`\n\n## Build\n```bash\nrolldown index.ts --format iife --platform neutral --file bundle.js\n```\n";

/// `README.md`: titled after the first contract (or `my-bundle`).
pub open spec fn js_readme(ir: ValidatedIr) -> Seq<char> {
    let name = if ir.contracts@.len() > 0 {
        ir.contracts@[0].name@
    } else {
        "my-bundle"@
    };
    "# js-quickjs Plugin Bundle: "@ + name + JS_README_BODY@
}

/// Generate the bundle's `README.md`.
pub fn generate_readme_quickjs(ir: &ValidatedIr) -> (r: String)
    ensures
        r@ == js_readme(*ir),
{
    let mut out: String = String::new();
    out.append("# js-quickjs Plugin Bundle: ");
    if ir.contracts.len() > 0 {
        out.append(ir.contracts[0].name.as_str());
    } else {
        out.append("my-bundle");
    }
    out.append(JS_README_BODY);
    out
}

/// The part of `guest/init.ts` between the imports and the registrations.
pub const JS_INIT_PREAMBLE: &'static str = "\n} from './contracts';\n\n// ABI error codes (match polyplug_abi.AbiErrorCode)\nconst AbiErrorCode = {\n    Ok: 0,\n    Generic: 1,\n    InvalidPointer: 8,\n};\n\ninterface AbiError {\n    code: number;\n    message: string;\n}\n\n// One registration entry per implemented contract. The loader reads this\n// array from polyplug_init's return value (nothing is deposited into any\n// global — Rule 12) and registers one GuestContractInterface per entry.\ninterface Registration {\n    contractLo: number;\n    contractHi: number;\n    interface: any;\n    fnCount: number;\n    contractName: string;\n    version: number;\n}\n\n/**\n * Initialize plugin with host runtime.\n *\n * Returns `[registrations, abiError]`: the per-contract registration array\n * the loader consumes, plus the canonical AbiError ({ code, message }).\n * Nothing is deposited into any global namespace (Rule 12) — the loader reads\n * BOTH return values. The host vtable and the `bridge` are threaded explicitly\n * to each author factory; no host pointer or bridge is stored in any module.\n *\n * @param host_lo - HostApi pointer (low 32 bits)\n * @param host_hi - HostApi pointer (high 32 bits)\n * @param ctx_lo - BundleInitContext pointer (low 32 bits)\n * @param ctx_hi - BundleInitContext pointer (high 32 bits)\n * @param bridge - Host-capability bridge passed in by the loader\n */\nexport function polyplug_init(\n    host_lo: number, host_hi: number,\n    ctx_lo: number, ctx_hi: number,\n    bridge: any\n): [Registration[], AbiError] {\n    // Validate parameters\n    if (host_lo === 0 && host_hi === 0) {\n        return [[], { code: AbiErrorCode.Generic, message: \"null host pointer in polyplug_init\" }];\n    }\n    if (ctx_lo === 0 && ctx_hi === 0) {\n        return [[], { code: AbiErrorCode.Generic, message: \"null ctx pointer in polyplug_init\" }];\n    }\n    if (!bridge || !bridge.alloc) {\n        return [[], { code: AbiErrorCode.Generic, message: \"missing bridge in polyplug_init\" }];\n    }\n\n    const registrations: Registration[] = [];\n";

// ─── host/contracts.ts ──────────────────────────────────────────────────────

/// A function's ergonomic return type, `void` when it returns nothing.
pub open spec fn ts_ergonomic_ret(ret: Option<ResolvedTypeRef>) -> Seq<char> {
    match ret {
        Some(t) => ts_ergonomic(t),
        None => "void"@,
    }
}

/// One method of a host interface: the name in PascalCase, ergonomic types.
pub open spec fn ts_host_method(acc: Seq<char>, func: ResolvedFunction) -> Seq<char> {
    acc + "    "@ + ts_pascal(func.name@) + "("@ + ts_params(func.params@, true) + "): "@ + ts_ergonomic_ret(func.returns) + ";\n"@
}

/// Emit one method of a host interface.
pub fn generate_ts_host_interface_method(out: &mut String, func: &ResolvedFunction)
    ensures
        final(out)@ == ts_host_method(old(out)@, *func),
{
    let name: String = host_method_pascal_case(func.name.as_str());
    out.append("    ");
    out.append(name.as_str());
    out.append("(");
    push_ts_params(out, &func.params, true);
    out.append("): ");
    match &func.returns {
        Some(t) => {
            let r: String = ts_host_return_type(t);
            out.append(r.as_str());
        },
        None => {
            out.append("void");
        },
    }
    out.append(";\n");
}

/// The methods of a host interface.
pub open spec fn ts_host_methods(acc: Seq<char>, funcs: Seq<ResolvedFunction>) -> Seq<char>
    decreases funcs.len(),
{
    if funcs.len() == 0 {
        acc
    } else {
        ts_host_method(ts_host_methods(acc, funcs.drop_last()), funcs.last())
    }
}

/// The interface a host implements for a host contract.
pub open spec fn ts_host_interface(acc: Seq<char>, contract: ResolvedHostContract) -> Seq<char> {
    ts_host_methods(
        acc + "/**\n * Host interface for contract `"@ + contract.name@ + "` (id=0x"@ + hex_digits(contract.contract_id as nat, 16)
            + ")\n * Hosts implement this interface to provide functionality to plugins.\n */\n"@ + "export interface "@
            + host_class_base(contract.name@) + " {\n"@,
        contract.functions@,
    ) + "}\n\n"@
}

/// Emit the interface a host implements for a host contract.
pub fn generate_ts_host_contract_interface(out: &mut String, contract: &ResolvedHostContract)
    ensures
        final(out)@ == ts_host_interface(old(out)@, *contract),
{
    let iface: String = host_contract_name_to_ts_interface(contract.name.as_str());
    out.append("/**\n * Host interface for contract `");
    out.append(contract.name.as_str());
    out.append("` (id=0x");
    push_hex16(out, contract.contract_id);
    out.append(")\n * Hosts implement this interface to provide functionality to plugins.\n */\n");
    out.append("export interface ");
    out.append(iface.as_str());
    out.append(" {\n");
    let ghost s0 = out@;
    let n: usize = contract.functions.len();
    let mut i: usize = 0;
    while i < n
        invariant
            n == contract.functions@.len(),
            i <= n,
            out@ == ts_host_methods(s0, contract.functions@.take(i as int)),
        decreases n - i,
    {
        generate_ts_host_interface_method(out, &contract.functions[i]);
        assert(contract.functions@.take(i + 1).drop_last() =~= contract.functions@.take(i as int));
        i = i + 1;
    }
    assert(contract.functions@.take(n as int) =~= contract.functions@);
    out.append("}\n\n");
}

/// The interfaces of every host contract.
pub open spec fn ts_host_interfaces(acc: Seq<char>, contracts: Seq<ResolvedHostContract>) -> Seq<char>
    decreases contracts.len(),
{
    if contracts.len() == 0 {
        acc
    } else {
        ts_host_interface(ts_host_interfaces(acc, contracts.drop_last()), contracts.last())
    }
}

/// A documented `export const` with a host contract's id, named `<NAME><suffix>`.
pub open spec fn ts_host_ids(acc: Seq<char>, contracts: Seq<ResolvedHostContract>, caller: bool) -> Seq<char>
    decreases contracts.len(),
{
    if contracts.len() == 0 {
        acc
    } else {
        let c = contracts.last();
        let cname = if caller {
            upper_str(ts_host_caller(c.name@)) + "_ID"@
        } else {
            upper_str(host_class_base(c.name@)) + "_CONTRACT_ID"@
        };
        ts_host_ids(acc, contracts.drop_last(), caller) + "/** Contract ID for `"@ + c.name@ + "` (FNV-1a of \"host_contract:"@
            + c.name@ + "@"@ + dec_digits(c.version.major as nat) + "\") */\n"@ + "export const "@ + cname + " = 0x"@
            + hex_digits(c.contract_id as nat, 16) + "n;\n\n"@
    }
}

fn push_ts_host_ids(out: &mut String, contracts: &Vec<ResolvedHostContract>, caller: bool)
    ensures
        final(out)@ == ts_host_ids(old(out)@, contracts@, caller),
{
    let n: usize = contracts.len();
    let mut i: usize = 0;
    while i < n
        invariant
            n == contracts@.len(),
            i <= n,
            out@ == ts_host_ids(old(out)@, contracts@.take(i as int), caller),
        decreases n - i,
    {
        let c: &ResolvedHostContract = &contracts[i];
        let mut cname: String = if caller {
            let cls: String = host_contract_name_to_ts_caller(c.name.as_str());
            to_uppercase(cls.as_str())
        } else {
            let cls: String = host_contract_name_to_ts_interface(c.name.as_str());
            to_uppercase(cls.as_str())
        };
        if caller {
            cname.append("_ID");
        } else {
            cname.append("_CONTRACT_ID");
        }
        out.append("/** Contract ID for `");
        out.append(c.name.as_str());
        out.append("` (FNV-1a of \"host_contract:");
        out.append(c.name.as_str());
        out.append("@");
        push_u32(out, c.version.major);
        out.append("\") */\n");
        out.append("export const ");
        out.append(cname.as_str());
        out.append(" = 0x");
        push_hex16(out, c.contract_id);
        out.append("n;\n\n");
        assert(contracts@.take(i + 1).drop_last() =~= contracts@.take(i as int));
        i = i + 1;
    }
    assert(contracts@.take(n as int) =~= contracts@);
}

/// The first lines of `host/contracts.ts`.
pub const JS_HOST_CONTRACTS_HEADER: &'static str = "// THIS FILE IS AUTO-GENERATED BY polyplugc\n// DO NOT EDIT BY HAND\n// Runtime: js-quickjs (host-side interfaces)\n\n";

/// `host/contracts.ts`: an interface and an id per host contract.
pub open spec fn js_host_contracts_ts(ir: ValidatedIr) -> Seq<char> {
    ts_host_ids(
        ts_host_interfaces(JS_HOST_CONTRACTS_HEADER@, ir.host_contracts@) + "// Contract ID constants\n"@,
        ir.host_contracts@,
        false,
    )
}

/// Generate `host/contracts.ts`.
pub fn generate_host_contracts_ts(ir: &ValidatedIr) -> (r: String)
    ensures
        r@ == js_host_contracts_ts(*ir),
{
    let mut out: String = String::new();
    out.append(JS_HOST_CONTRACTS_HEADER);
    let ghost s0 = out@;
    let n: usize = ir.host_contracts.len();
    let mut i: usize = 0;
    while i < n
        invariant
            n == ir.host_contracts@.len(),
            i <= n,
            out@ == ts_host_interfaces(s0, ir.host_contracts@.take(i as int)),
        decreases n - i,
    {
        generate_ts_host_contract_interface(&mut out, &ir.host_contracts[i]);
        assert(ir.host_contracts@.take(i + 1).drop_last() =~= ir.host_contracts@.take(i as int));
        i = i + 1;
    }
    assert(ir.host_contracts@.take(n as int) =~= ir.host_contracts@);
    out.append("// Contract ID constants\n");
    push_ts_host_ids(&mut out, &ir.host_contracts, false);
    out
}


// ─── C layout of ABI values ─────────────────────────────────────────────────
//
// User types may nest to any depth; every layout computation carries a fuel
// bounded by the number of declared types, which a layout without cycles never
// exhausts. A type whose layout needs more (it contains itself) or whose size
// does not fit in `usize` is reported as unsupported.

/// Size and natural alignment of a primitive.
pub open spec fn prim_size(p: PrimitiveType) -> nat {
    match p {
        PrimitiveType::U8 | PrimitiveType::I8 | PrimitiveType::Bool => 1,
        PrimitiveType::U16 | PrimitiveType::I16 => 2,
        PrimitiveType::U32 | PrimitiveType::I32 | PrimitiveType::F32 => 4,
        PrimitiveType::U64 | PrimitiveType::I64 | PrimitiveType::F64 => 8,
    }
}

fn prim_size_of(p: &PrimitiveType) -> (r: usize)
    ensures
        r as nat == prim_size(*p),
{
    match p {
        PrimitiveType::U8 | PrimitiveType::I8 | PrimitiveType::Bool => 1,
        PrimitiveType::U16 | PrimitiveType::I16 => 2,
        PrimitiveType::U32 | PrimitiveType::I32 | PrimitiveType::F32 => 4,
        PrimitiveType::U64 | PrimitiveType::I64 | PrimitiveType::F64 => 8,
    }
}

/// Byte width of an enum repr.
pub open spec fn repr_size(r: ReprType) -> nat {
    match r {
        ReprType::U8 => 1,
        ReprType::U16 => 2,
        ReprType::U32 => 4,
        ReprType::U64 => 8,
    }
}

/// Byte width of an enum's declared repr.
pub fn js_repr_size(repr: &ReprType) -> (r: usize)
    ensures
        r as nat == repr_size(*repr),
{
    match repr {
        ReprType::U8 => 1,
        ReprType::U16 => 2,
        ReprType::U32 => 4,
        ReprType::U64 => 8,
    }
}

/// `x` rounded up to a multiple of `a` (unchanged for `a == 0`).
pub open spec fn align_to(x: nat, a: nat) -> nat {
    if a == 0 {
        x
    } else if x % a == 0 {
        x
    } else {
        x + (a - x % a) as nat
    }
}

/// Rounding up lands on the next multiple of the alignment, less than one
/// alignment above the offset.
pub proof fn align_to_is_next_multiple(x: nat, a: nat)
    requires
        a > 0,
    ensures
        align_to(x, a) % a == 0,
        x <= align_to(x, a) < x + a,
{
    if x % a != 0 {
        let xi: int = x as int;
        let ai: int = a as int;
        let q: int = xi / ai;
        let r: int = xi % ai;
        assert(xi == ai * q + r) by (nonlinear_arith)
            requires
                ai > 0,
                q == xi / ai,
                r == xi % ai,
        ;
        assert(xi + (ai - r) == ai * (q + 1)) by (nonlinear_arith)
            requires
                xi == ai * q + r,
        ;
        assert((ai * (q + 1)) % ai == 0) by (nonlinear_arith)
            requires
                ai > 0,
        ;
    }
}

/// Whether a value fits in `usize`.
pub open spec fn fits(n: nat) -> bool {
    n <= usize::MAX
}

fn align_up_checked(x: usize, a: usize) -> (r: Option<usize>)
    ensures
        match r {
            Some(v) => v as nat == align_to(x as nat, a as nat),
            None => !fits(align_to(x as nat, a as nat)),
        },
{
    if a == 0 {
        Some(x)
    } else {
        let rem: usize = x % a;
        if rem == 0 {
            Some(x)
        } else {
            x.checked_add(a - rem)
        }
    }
}

/// Round `offset` up to the next multiple of `align` (C struct layout).
pub fn align_up(offset: usize, align: usize) -> (r: usize)
    requires
        fits(align_to(offset as nat, align as nat)),
    ensures
        r as nat == align_to(offset as nat, align as nat),
{
    match align_up_checked(offset, align) {
        Some(v) => v,
        None => offset,
    }
}

/// The first user type named `name`.
pub open spec fn find_type(types: Seq<ResolvedType>, name: Seq<char>) -> Option<ResolvedType>
    decreases types.len(),
{
    if types.len() == 0 {
        None
    } else if types[0].name@ == name {
        Some(types[0])
    } else {
        find_type(types.drop_first(), name)
    }
}

impl ResolvedTypeRef {
    /// The enum this reference names, if it names one.
    pub open spec fn enum_lookup(self, enums: Seq<EnumDef>) -> Option<EnumDef> {
        match self {
            ResolvedTypeRef::UserDefined(name) => find_enum(enums, name@),
            _ => None,
        }
    }

    /// The user type this reference names, if it names one.
    pub open spec fn type_lookup(self, types: Seq<ResolvedType>) -> Option<ResolvedType> {
        match self {
            ResolvedTypeRef::UserDefined(name) => find_type(types, name@),
            _ => None,
        }
    }
}

/// The enum a type reference names, if it names one.
pub fn js_enum_for_type<'a>(ty: &ResolvedTypeRef, enums: &'a [EnumDef]) -> (r: Option<&'a EnumDef>)
    ensures
        match r {
            Some(f) => ty.enum_lookup(enums@) == Some(*f),
            None => ty.enum_lookup(enums@) is None,
        },
{
    match ty {
        ResolvedTypeRef::UserDefined(name) => {
            let mut i: usize = 0;
            assert(enums@.skip(0) =~= enums@);
            while i < enums.len()
                invariant
                    i <= enums@.len(),
                    *ty == ResolvedTypeRef::UserDefined(*name),
                    find_enum(enums@, name@) == find_enum(enums@.skip(i as int), name@),
                decreases enums@.len() - i,
            {
                assert(enums@.skip(i as int)[0] == enums@[i as int]);
                assert(enums@.skip(i as int).drop_first() =~= enums@.skip(i + 1));
                if crate::text::str_eq(enums[i].name.as_str(), name.as_str()) {
                    assert(find_enum(enums@.skip(i as int), name@) == Some(enums@[i as int]));
                    let found: &EnumDef = vstd::slice::slice_index_get(enums, i);
                    return Some(found);
                }
                i = i + 1;
            }
            None
        },
        _ => None,
    }
}

/// The user type a type reference names, if it names one.
pub fn js_struct_for_type<'a>(ty: &ResolvedTypeRef, types: &'a [ResolvedType]) -> (r: Option<&'a ResolvedType>)
    ensures
        match r {
            Some(u) => ty.type_lookup(types@) == Some(*u),
            None => ty.type_lookup(types@) is None,
        },
{
    match ty {
        ResolvedTypeRef::UserDefined(name) => {
            let mut i: usize = 0;
            assert(types@.skip(0) =~= types@);
            while i < types.len()
                invariant
                    i <= types@.len(),
                    *ty == ResolvedTypeRef::UserDefined(*name),
                    find_type(types@, name@) == find_type(types@.skip(i as int), name@),
                decreases types@.len() - i,
            {
                assert(types@.skip(i as int)[0] == types@[i as int]);
                assert(types@.skip(i as int).drop_first() =~= types@.skip(i + 1));
                if crate::text::str_eq(types[i].name.as_str(), name.as_str()) {
                    assert(find_type(types@.skip(i as int), name@) == Some(types@[i as int]));
                    let found: &ResolvedType = vstd::slice::slice_index_get(types, i);
                    return Some(found);
                }
                i = i + 1;
            }
            None
        },
        _ => None,
    }
}

/// Whether an error reports `name` as unsupported by this generator.
pub open spec fn unsupported_is(e: crate::error::CodegenError, name: Seq<char>) -> bool {
    e matches crate::error::CodegenError::UnsupportedType { ty, lang } && ty@ == name && lang@ == "js-quickjs"@
}

fn unsupported(name: &str) -> (e: crate::error::CodegenError)
    ensures
        unsupported_is(e, name@),
{
    crate::error::CodegenError::UnsupportedType { ty: name.to_owned(), lang: "js-quickjs".to_owned() }
}

/// The layout fuel of an IR: its number of user types.
pub open spec fn layout_fuel(ir: ValidatedIr) -> nat {
    ir.types@.len()
}

/// C-layout alignment of an ABI value; `Err` names the first unsupported type.
pub open spec fn js_align(ty: ResolvedTypeRef, types: Seq<ResolvedType>, enums: Seq<EnumDef>, fuel: nat) -> Result<nat, Seq<char>>
    decreases fuel, 0nat,
{
    match ty {
        ResolvedTypeRef::Primitive(p) => Ok(prim_size(p)),
        ResolvedTypeRef::AbiType(AbiBuiltin::Void) => Ok(1),
        ResolvedTypeRef::AbiType(_) => Ok(8),
        ResolvedTypeRef::UserDefined(name) => match find_enum(enums, name@) {
            Some(e) => Ok(repr_size(e.repr)),
            None => match find_type(types, name@) {
                Some(s) => if fuel == 0 {
                    Err(name@)
                } else {
                    js_align_fields(s.fields@, types, enums, (fuel - 1) as nat)
                },
                None => Err(name@),
            },
        },
    }
}

/// The largest alignment among fields (at least 1).
pub open spec fn js_align_fields(fs: Seq<ResolvedField>, types: Seq<ResolvedType>, enums: Seq<EnumDef>, fuel: nat) -> Result<nat, Seq<char>>
    decreases fuel, fs.len() + 1,
{
    if fs.len() == 0 {
        Ok(1)
    } else {
        match js_align_fields(fs.drop_last(), types, enums, fuel) {
            Err(e) => Err(e),
            Ok(m) => match js_align(fs.last().ty, types, enums, fuel) {
                Err(e) => Err(e),
                Ok(a) => Ok(
                    if a > m {
                        a
                    } else {
                        m
                    },
                ),
            },
        }
    }
}

proof fn lemma_align_bounds(ty: ResolvedTypeRef, types: Seq<ResolvedType>, enums: Seq<EnumDef>, fuel: nat)
    ensures
        js_align(ty, types, enums, fuel) matches Ok(a) ==> 1 <= a <= 8,
    decreases fuel, 0nat,
{
    match ty {
        ResolvedTypeRef::UserDefined(name) => match find_enum(enums, name@) {
            Some(e) => {},
            None => match find_type(types, name@) {
                Some(s) => if fuel > 0 {
                    lemma_align_fields_bounds(s.fields@, types, enums, (fuel - 1) as nat);
                },
                None => {},
            },
        },
        _ => {},
    }
}

proof fn lemma_align_fields_bounds(fs: Seq<ResolvedField>, types: Seq<ResolvedType>, enums: Seq<EnumDef>, fuel: nat)
    ensures
        js_align_fields(fs, types, enums, fuel) matches Ok(a) ==> 1 <= a <= 8,
    decreases fuel, fs.len() + 1,
{
    if fs.len() > 0 {
        lemma_align_fields_bounds(fs.drop_last(), types, enums, fuel);
        lemma_align_bounds(fs.last().ty, types, enums, fuel);
    }
}

proof fn lemma_align_fields_err(fs: Seq<ResolvedField>, k: int, types: Seq<ResolvedType>, enums: Seq<EnumDef>, fuel: nat)
    requires
        0 <= k <= fs.len(),
        js_align_fields(fs.take(k), types, enums, fuel) is Err,
    ensures
        js_align_fields(fs, types, enums, fuel) == js_align_fields(fs.take(k), types, enums, fuel),
    decreases fs.len(),
{
    if k == fs.len() {
        assert(fs.take(k) =~= fs);
    } else {
        assert(fs.drop_last().take(k) =~= fs.take(k));
        lemma_align_fields_err(fs.drop_last(), k, types, enums, fuel);
    }
}

proof fn lemma_size_fields_err(fs: Seq<ResolvedField>, k: int, sname: Seq<char>, types: Seq<ResolvedType>, enums: Seq<EnumDef>, fuel: nat)
    requires
        0 <= k <= fs.len(),
        js_size_fields(fs.take(k), sname, types, enums, fuel) is Err,
    ensures
        js_size_fields(fs, sname, types, enums, fuel) == js_size_fields(fs.take(k), sname, types, enums, fuel),
    decreases fs.len(),
{
    if k == fs.len() {
        assert(fs.take(k) =~= fs);
    } else {
        assert(fs.drop_last().take(k) =~= fs.take(k));
        lemma_size_fields_err(fs.drop_last(), k, sname, types, enums, fuel);
    }
}

fn align_fuel(ty: &ResolvedTypeRef, ir: &ValidatedIr, fuel: usize) -> (r: Result<usize, crate::error::CodegenError>)
    ensures
        match r {
            Ok(v) => js_align(*ty, ir.types@, ir.enums@, fuel as nat) == Ok::<nat, Seq<char>>(v as nat),
            Err(e) => js_align(*ty, ir.types@, ir.enums@, fuel as nat) matches Err(n) && unsupported_is(e, n),
        },
    decreases fuel,
{
    match ty {
        ResolvedTypeRef::Primitive(p) => Ok(prim_size_of(p)),
        ResolvedTypeRef::AbiType(AbiBuiltin::Void) => Ok(1),
        ResolvedTypeRef::AbiType(_) => Ok(8),
        ResolvedTypeRef::UserDefined(name) => {
            match js_enum_for_type(ty, ir.enums.as_slice()) {
                Some(e) => {
                    return Ok(js_repr_size(&e.repr));
                },
                None => {},
            }
            match js_struct_for_type(ty, ir.types.as_slice()) {
                Some(s) => {
                    if fuel == 0 {
                        return Err(unsupported(name.as_str()));
                    }
                    let ghost fs = s.fields@;
                    let mut m: usize = 1;
                    let n: usize = s.fields.len();
                    let mut i: usize = 0;
                    while i < n
                        invariant
                            n == fs.len(),
                            fs == s.fields@,
                            i <= n,
                            0 < fuel,
                            *ty == ResolvedTypeRef::UserDefined(*name),
                            find_enum(ir.enums@, name@) is None,
                            find_type(ir.types@, name@) == Some(*s),
                            js_align_fields(fs.take(i as int), ir.types@, ir.enums@, (fuel - 1) as nat) == Ok::<nat, Seq<char>>(m as nat),
                        decreases n - i,
                    {
                        assert(fs.take(i + 1).drop_last() =~= fs.take(i as int));
                        assert(fs.take(i + 1).last() == s.fields@[i as int]);
                        let a: usize = match align_fuel(&s.fields[i].ty, ir, fuel - 1) {
                            Ok(a) => a,
                            Err(e) => {
                                proof {
                                    lemma_align_fields_err(fs, i + 1, ir.types@, ir.enums@, (fuel - 1) as nat);
                                }
                                return Err(e);
                            },
                        };
                        if a > m {
                            m = a;
                        }
                        i = i + 1;
                    }
                    assert(fs.take(n as int) =~= fs);
                    Ok(m)
                },
                None => Err(unsupported(name.as_str())),
            }
        },
    }
}

/// C-layout alignment of one ABI value as packed by every host-side caller
/// (natural alignment).
pub fn js_c_align(ty: &ResolvedTypeRef, ir: &ValidatedIr) -> (r: Result<usize, crate::error::CodegenError>)
    ensures
        match r {
            Ok(v) => js_align(*ty, ir.types@, ir.enums@, layout_fuel(*ir)) == Ok::<nat, Seq<char>>(v as nat),
            Err(e) => js_align(*ty, ir.types@, ir.enums@, layout_fuel(*ir)) matches Err(n) && unsupported_is(e, n),
        },
{
    align_fuel(ty, ir, ir.types.len())
}

/// C-layout size of an ABI value; `Err` names the first unsupported type, or
/// the struct whose size does not fit in `usize`.
pub open spec fn js_size(ty: ResolvedTypeRef, types: Seq<ResolvedType>, enums: Seq<EnumDef>, fuel: nat) -> Result<nat, Seq<char>>
    decreases fuel, 0nat,
{
    match ty {
        ResolvedTypeRef::Primitive(p) => Ok(prim_size(p)),
        ResolvedTypeRef::AbiType(AbiBuiltin::StringView) => Ok(16),
        ResolvedTypeRef::AbiType(AbiBuiltin::Buffer) => Ok(24),
        ResolvedTypeRef::AbiType(AbiBuiltin::Ptr) => Ok(8),
        ResolvedTypeRef::AbiType(AbiBuiltin::Void) => Ok(0),
        ResolvedTypeRef::UserDefined(name) => match find_enum(enums, name@) {
            Some(e) => Ok(repr_size(e.repr)),
            None => match find_type(types, name@) {
                Some(s) => if fuel == 0 {
                    Err(name@)
                } else {
                    match js_size_fields(s.fields@, name@, types, enums, (fuel - 1) as nat) {
                        Err(e) => Err(e),
                        Ok(pair) => {
                            let t = align_to(pair.0, pair.1);
                            if fits(t) {
                                Ok(t)
                            } else {
                                Err(name@)
                            }
                        },
                    }
                },
                None => Err(name@),
            },
        },
    }
}

/// The end offset and the largest alignment of a field list laid out in order.
pub open spec fn js_size_fields(fs: Seq<ResolvedField>, sname: Seq<char>, types: Seq<ResolvedType>, enums: Seq<EnumDef>, fuel: nat) -> Result<(nat, nat), Seq<char>>
    decreases fuel, fs.len() + 1,
{
    if fs.len() == 0 {
        Ok((0, 1))
    } else {
        match js_size_fields(fs.drop_last(), sname, types, enums, fuel) {
            Err(e) => Err(e),
            Ok(prev) => match js_align(fs.last().ty, types, enums, fuel) {
                Err(e) => Err(e),
                Ok(a) => {
                    let m = if a > prev.1 {
                        a
                    } else {
                        prev.1
                    };
                    let o = align_to(prev.0, a);
                    if !fits(o) {
                        Err(sname)
                    } else {
                        match js_size(fs.last().ty, types, enums, fuel) {
                            Err(e) => Err(e),
                            Ok(sz) => if fits(o + sz) {
                                Ok((o + sz, m))
                            } else {
                                Err(sname)
                            },
                        }
                    }
                },
            },
        }
    }
}

fn size_fuel(ty: &ResolvedTypeRef, ir: &ValidatedIr, fuel: usize) -> (r: Result<usize, crate::error::CodegenError>)
    ensures
        match r {
            Ok(v) => js_size(*ty, ir.types@, ir.enums@, fuel as nat) == Ok::<nat, Seq<char>>(v as nat),
            Err(e) => js_size(*ty, ir.types@, ir.enums@, fuel as nat) matches Err(n) && unsupported_is(e, n),
        },
    decreases fuel,
{
    match ty {
        ResolvedTypeRef::Primitive(p) => Ok(prim_size_of(p)),
        ResolvedTypeRef::AbiType(AbiBuiltin::StringView) => Ok(16),
        ResolvedTypeRef::AbiType(AbiBuiltin::Buffer) => Ok(24),
        ResolvedTypeRef::AbiType(AbiBuiltin::Ptr) => Ok(8),
        ResolvedTypeRef::AbiType(AbiBuiltin::Void) => Ok(0),
        ResolvedTypeRef::UserDefined(name) => {
            match js_enum_for_type(ty, ir.enums.as_slice()) {
                Some(e) => {
                    return Ok(js_repr_size(&e.repr));
                },
                None => {},
            }
            match js_struct_for_type(ty, ir.types.as_slice()) {
                Some(s) => {
                    if fuel == 0 {
                        return Err(unsupported(name.as_str()));
                    }
                    let ghost fs = s.fields@;
                    let mut offset: usize = 0;
                    let mut m: usize = 1;
                    let n: usize = s.fields.len();
                    let mut i: usize = 0;
                    while i < n
                        invariant
                            n == fs.len(),
                            fs == s.fields@,
                            i <= n,
                            0 < fuel,
                            *ty == ResolvedTypeRef::UserDefined(*name),
                            find_enum(ir.enums@, name@) is None,
                            find_type(ir.types@, name@) == Some(*s),
                            js_size_fields(fs.take(i as int), name@, ir.types@, ir.enums@, (fuel - 1) as nat) == Ok::<
                                (nat, nat),
                                Seq<char>,
                            >((offset as nat, m as nat)),
                        decreases n - i,
                    {
                        assert(fs.take(i + 1).drop_last() =~= fs.take(i as int));
                        assert(fs.take(i + 1).last() == s.fields@[i as int]);
                        let ghost fl: nat = (fuel - 1) as nat;
                        let a: usize = match align_fuel(&s.fields[i].ty, ir, fuel - 1) {
                            Ok(a) => a,
                            Err(e) => {
                                proof {
                                    lemma_size_fields_err(fs, i + 1, name@, ir.types@, ir.enums@, fl);
                                }
                                return Err(e);
                            },
                        };
                        if a > m {
                            m = a;
                        }
                        let o: usize = match align_up_checked(offset, a) {
                            Some(o) => o,
                            None => {
                                proof {
                                    lemma_size_fields_err(fs, i + 1, name@, ir.types@, ir.enums@, fl);
                                }
                                return Err(unsupported(name.as_str()));
                            },
                        };
                        let sz: usize = match size_fuel(&s.fields[i].ty, ir, fuel - 1) {
                            Ok(sz) => sz,
                            Err(e) => {
                                proof {
                                    lemma_size_fields_err(fs, i + 1, name@, ir.types@, ir.enums@, fl);
                                }
                                return Err(e);
                            },
                        };
                        offset = match o.checked_add(sz) {
                            Some(v) => v,
                            None => {
                                proof {
                                    lemma_size_fields_err(fs, i + 1, name@, ir.types@, ir.enums@, fl);
                                }
                                return Err(unsupported(name.as_str()));
                            },
                        };
                        i = i + 1;
                    }
                    assert(fs.take(n as int) =~= fs);
                    match align_up_checked(offset, m) {
                        Some(t) => Ok(t),
                        None => Err(unsupported(name.as_str())),
                    }
                },
                None => Err(unsupported(name.as_str())),
            }
        },
    }
}

/// C-layout size of one ABI value as packed by every host-side caller.
pub fn js_c_size(ty: &ResolvedTypeRef, ir: &ValidatedIr) -> (r: Result<usize, crate::error::CodegenError>)
    ensures
        match r {
            Ok(v) => js_size(*ty, ir.types@, ir.enums@, layout_fuel(*ir)) == Ok::<nat, Seq<char>>(v as nat),
            Err(e) => js_size(*ty, ir.types@, ir.enums@, layout_fuel(*ir)) matches Err(n) && unsupported_is(e, n),
        },
{
    size_fuel(ty, ir, ir.types.len())
}

/// Size and alignment of a caller's out slot.
pub open spec fn js_slot(ty: ResolvedTypeRef, ir: ValidatedIr) -> Result<(nat, nat), Seq<char>> {
    match ty {
        ResolvedTypeRef::Primitive(p) => Ok((prim_size(p), prim_size(p))),
        ResolvedTypeRef::AbiType(AbiBuiltin::StringView) => Ok((16, 8)),
        ResolvedTypeRef::AbiType(AbiBuiltin::Buffer) => Ok((24, 8)),
        ResolvedTypeRef::AbiType(AbiBuiltin::Ptr) => Ok((8, 8)),
        ResolvedTypeRef::AbiType(AbiBuiltin::Void) => Ok((0, 1)),
        ResolvedTypeRef::UserDefined(name) => match find_enum(ir.enums@, name@) {
            Some(e) => Ok((repr_size(e.repr), repr_size(e.repr))),
            None => match js_size(ty, ir.types@, ir.enums@, layout_fuel(ir)) {
                Err(e) => Err(e),
                Ok(s) => match js_align(ty, ir.types@, ir.enums@, layout_fuel(ir)) {
                    Err(e) => Err(e),
                    Ok(a) => Ok((s, a)),
                },
            },
        },
    }
}

/// Size and alignment of the out slot a caller allocates for a value.
pub fn js_caller_slot_layout(ty: &ResolvedTypeRef, ir: &ValidatedIr) -> (r: Result<(usize, usize), crate::error::CodegenError>)
    ensures
        match r {
            Ok(v) => js_slot(*ty, *ir) == Ok::<(nat, nat), Seq<char>>((v.0 as nat, v.1 as nat)),
            Err(e) => js_slot(*ty, *ir) matches Err(n) && unsupported_is(e, n),
        },
{
    match ty {
        ResolvedTypeRef::Primitive(p) => {
            let s: usize = prim_size_of(p);
            Ok((s, s))
        },
        ResolvedTypeRef::AbiType(AbiBuiltin::StringView) => Ok((16, 8)),
        ResolvedTypeRef::AbiType(AbiBuiltin::Buffer) => Ok((24, 8)),
        ResolvedTypeRef::AbiType(AbiBuiltin::Ptr) => Ok((8, 8)),
        ResolvedTypeRef::AbiType(AbiBuiltin::Void) => Ok((0, 1)),
        ResolvedTypeRef::UserDefined(_) => match js_enum_for_type(ty, ir.enums.as_slice()) {
            Some(e) => {
                let s: usize = js_repr_size(&e.repr);
                Ok((s, s))
            },
            None => {
                let s: usize = match js_c_size(ty, ir) {
                    Ok(s) => s,
                    Err(e) => {
                        return Err(e);
                    },
                };
                let a: usize = match js_c_align(ty, ir) {
                    Ok(a) => a,
                    Err(e) => {
                        return Err(e);
                    },
                };
                Ok((s, a))
            },
        },
    }
}

/// `base + off` as a JS pointer expression (`base` alone at offset 0).
pub open spec fn ptr_at(base: Seq<char>, off: nat) -> Seq<char> {
    if off == 0 {
        base
    } else {
        base + " + "@ + dec_digits(off)
    }
}

/// Render `base + off` as a JS pointer expression (omits `+ 0`).
pub fn js_ptr_at(base: &str, off: usize) -> (r: String)
    ensures
        r@ == ptr_at(base@, off as nat),
{
    let mut r: String = base.to_owned();
    if off != 0 {
        r.append(" + ");
        push_usize(&mut r, off);
    }
    r
}

fn push_ptr_at(out: &mut String, base: &str, off: usize, delta: u8)
    ensures
        final(out)@ == old(out)@ + ptr_at(base@, off as nat + delta as nat),
{
    out.append(base);
    let v: u128 = off as u128 + delta as u128;
    if v != 0 {
        out.append(" + ");
        crate::text::push_u128(out, v);
    }
}


// ─── Reading and writing ABI values through the loader bridge ───────────────

/// `polyplug.<f>(<base + off>)`.
pub open spec fn rd(f: Seq<char>, base: Seq<char>, off: nat) -> Seq<char> {
    "polyplug."@ + f + "("@ + ptr_at(base, off) + ")"@
}

fn push_rd(out: &mut String, f: &str, base: &str, off: usize, delta: u8)
    ensures
        final(out)@ == old(out)@ + rd(f@, base@, off as nat + delta as nat),
{
    out.append("polyplug.");
    out.append(f);
    out.append("(");
    push_ptr_at(out, base, off, delta);
    out.append(")");
}

/// `{ lo: …, hi: … }` read from two consecutive u32 words.
pub open spec fn rd_lohi(base: Seq<char>, off: nat) -> Seq<char> {
    "{ lo: "@ + rd("readU32"@, base, off) + ", hi: "@ + rd("readU32"@, base, off + 4) + " }"@
}

/// A little-endian u16 assembled from two byte reads.
pub open spec fn rd_u16(base: Seq<char>, off: nat) -> Seq<char> {
    "("@ + rd("readByte"@, base, off) + " | ("@ + rd("readByte"@, base, off + 1) + " << 8))"@
}

/// JS expression reading a primitive at `base + off`.
pub open spec fn js_read_prim(p: PrimitiveType, base: Seq<char>, off: nat) -> Seq<char> {
    match p {
        PrimitiveType::U8 => rd("readByte"@, base, off),
        PrimitiveType::I8 => "(("@ + rd("readByte"@, base, off) + " << 24) >> 24)"@,
        PrimitiveType::U16 => rd_u16(base, off),
        PrimitiveType::I16 => "(("@ + rd_u16(base, off) + " << 16) >> 16)"@,
        PrimitiveType::U32 => rd("readU32"@, base, off),
        PrimitiveType::I32 => rd("readI32"@, base, off),
        PrimitiveType::F32 => rd("readF32"@, base, off),
        PrimitiveType::F64 => rd("readF64"@, base, off),
        PrimitiveType::Bool => "("@ + rd("readByte"@, base, off) + " !== 0)"@,
        PrimitiveType::U64 | PrimitiveType::I64 => rd_lohi(base, off),
    }
}

/// JS expression reading an enum's raw repr integer at `base + off`.
pub open spec fn js_read_repr(r: ReprType, base: Seq<char>, off: nat) -> Seq<char> {
    match r {
        ReprType::U8 => rd("readByte"@, base, off),
        ReprType::U16 => rd_u16(base, off),
        ReprType::U32 => rd("readU32"@, base, off),
        ReprType::U64 => "("@ + rd("readU32"@, base, off) + " + "@ + rd("readU32"@, base, off + 4) + " * 4294967296)"@,
    }
}

/// JS expression reading a StringView (`with_cap` false) or a Buffer.
pub open spec fn js_read_view(base: Seq<char>, off: nat, with_cap: bool) -> Seq<char> {
    "{ ptr_lo: "@ + rd("readU32"@, base, off) + ", ptr_hi: "@ + rd("readU32"@, base, off + 4) + ", len: "@
        + rd("readU32"@, base, off + 8) + (if with_cap {
        ", cap: "@ + rd("readU32"@, base, off + 16)
    } else {
        Seq::<char>::empty()
    }) + " }"@
}

/// JS expression reading one ABI value of `ty` at `base + off`; user structs
/// read field by field into an object literal. `Err` names the unsupported type
/// (`void`, an unknown name, a struct nested deeper than `fuel`, or a struct
/// whose offsets overflow).
pub open spec fn js_read(ty: ResolvedTypeRef, base: Seq<char>, off: nat, ir: ValidatedIr, fuel: nat) -> Result<
    Seq<char>,
    Seq<char>,
>
    decreases fuel, 0nat,
{
    match ty {
        ResolvedTypeRef::Primitive(p) => Ok(js_read_prim(p, base, off)),
        ResolvedTypeRef::AbiType(AbiBuiltin::Ptr) => Ok(rd_lohi(base, off)),
        ResolvedTypeRef::AbiType(AbiBuiltin::StringView) => Ok(js_read_view(base, off, false)),
        ResolvedTypeRef::AbiType(AbiBuiltin::Buffer) => Ok(js_read_view(base, off, true)),
        ResolvedTypeRef::AbiType(AbiBuiltin::Void) => Err("void"@),
        ResolvedTypeRef::UserDefined(name) => match find_enum(ir.enums@, name@) {
            Some(e) => Ok(js_read_repr(e.repr, base, off)),
            None => match find_type(ir.types@, name@) {
                Some(s) => if fuel == 0 {
                    Err(name@)
                } else {
                    match js_read_fields(s.fields@, base, off, name@, ir, (fuel - 1) as nat) {
                        Err(e) => Err(e),
                        Ok(r) => Ok("{ "@ + r.0 + " }"@),
                    }
                },
                None => Err(name@),
            },
        },
    }
}

/// `name: <read>` for every field at its C-layout offset from `off`, joined
/// with `", "`, and the offset just past the last field.
pub open spec fn js_read_fields(
    fs: Seq<ResolvedField>,
    base: Seq<char>,
    off: nat,
    sname: Seq<char>,
    ir: ValidatedIr,
    fuel: nat,
) -> Result<(Seq<char>, nat), Seq<char>>
    decreases fuel, fs.len() + 1,
{
    if fs.len() == 0 {
        Ok((Seq::<char>::empty(), off))
    } else {
        match js_read_fields(fs.drop_last(), base, off, sname, ir, fuel) {
            Err(e) => Err(e),
            Ok(prev) => match js_align(fs.last().ty, ir.types@, ir.enums@, layout_fuel(ir)) {
                Err(e) => Err(e),
                Ok(a) => {
                    let o = align_to(prev.1, a);
                    if !fits(o) {
                        Err(sname)
                    } else {
                        match js_read(fs.last().ty, base, o, ir, fuel) {
                            Err(e) => Err(e),
                            Ok(x) => match js_size(fs.last().ty, ir.types@, ir.enums@, layout_fuel(ir)) {
                                Err(e) => Err(e),
                                Ok(sz) => if fits(o + sz) {
                                    let item = fs.last().name@ + ": "@ + x;
                                    Ok(
                                        (
                                            if fs.len() == 1 {
                                                item
                                            } else {
                                                prev.0 + ", "@ + item
                                            },
                                            o + sz,
                                        ),
                                    )
                                } else {
                                    Err(sname)
                                },
                            },
                        }
                    }
                },
            },
        }
    }
}

proof fn lemma_read_fields_err(fs: Seq<ResolvedField>, k: int, base: Seq<char>, off: nat, sname: Seq<char>, ir: ValidatedIr, fuel: nat)
    requires
        0 <= k <= fs.len(),
        js_read_fields(fs.take(k), base, off, sname, ir, fuel) is Err,
    ensures
        js_read_fields(fs, base, off, sname, ir, fuel) == js_read_fields(fs.take(k), base, off, sname, ir, fuel),
    decreases fs.len(),
{
    if k == fs.len() {
        assert(fs.take(k) =~= fs);
    } else {
        assert(fs.drop_last().take(k) =~= fs.take(k));
        lemma_read_fields_err(fs.drop_last(), k, base, off, sname, ir, fuel);
    }
}

fn read_fuel(ty: &ResolvedTypeRef, base: &str, off: usize, ir: &ValidatedIr, fuel: usize) -> (r: Result<
    String,
    crate::error::CodegenError,
>)
    ensures
        match r {
            Ok(s) => js_read(*ty, base@, off as nat, *ir, fuel as nat) == Ok::<Seq<char>, Seq<char>>(s@),
            Err(e) => js_read(*ty, base@, off as nat, *ir, fuel as nat) matches Err(n) && unsupported_is(e, n),
        },
    decreases fuel,
{
    let mut r: String = String::new();
    match ty {
        ResolvedTypeRef::Primitive(p) => {
            match p {
                PrimitiveType::U8 => {
                    push_rd(&mut r, "readByte", base, off, 0);
                    assert(r@ =~= js_read_prim(*p, base@, off as nat));
                },
                PrimitiveType::I8 => {
                    r.append("((");
                    push_rd(&mut r, "readByte", base, off, 0);
                    r.append(" << 24) >> 24)");
                    assert(r@ =~= js_read_prim(*p, base@, off as nat));
                },
                PrimitiveType::U16 => {
                    r.append("(");
                    push_rd(&mut r, "readByte", base, off, 0);
                    r.append(" | (");
                    push_rd(&mut r, "readByte", base, off, 1);
                    r.append(" << 8))");
                    assert(r@ =~= js_read_prim(*p, base@, off as nat));
                },
                PrimitiveType::I16 => {
                    r.append("((");
                    r.append("(");
                    push_rd(&mut r, "readByte", base, off, 0);
                    r.append(" | (");
                    push_rd(&mut r, "readByte", base, off, 1);
                    r.append(" << 8))");
                    r.append(" << 16) >> 16)");
                    assert(r@ =~= js_read_prim(*p, base@, off as nat));
                },
                PrimitiveType::U32 => {
                    push_rd(&mut r, "readU32", base, off, 0);
                    assert(r@ =~= js_read_prim(*p, base@, off as nat));
                },
                PrimitiveType::I32 => {
                    push_rd(&mut r, "readI32", base, off, 0);
                    assert(r@ =~= js_read_prim(*p, base@, off as nat));
                },
                PrimitiveType::F32 => {
                    push_rd(&mut r, "readF32", base, off, 0);
                    assert(r@ =~= js_read_prim(*p, base@, off as nat));
                },
                PrimitiveType::F64 => {
                    push_rd(&mut r, "readF64", base, off, 0);
                    assert(r@ =~= js_read_prim(*p, base@, off as nat));
                },
                PrimitiveType::Bool => {
                    r.append("(");
                    push_rd(&mut r, "readByte", base, off, 0);
                    r.append(" !== 0)");
                    assert(r@ =~= js_read_prim(*p, base@, off as nat));
                },
                PrimitiveType::U64 | PrimitiveType::I64 => {
                    r.append("{ lo: ");
                    push_rd(&mut r, "readU32", base, off, 0);
                    r.append(", hi: ");
                    push_rd(&mut r, "readU32", base, off, 4);
                    r.append(" }");
                    assert(r@ =~= js_read_prim(*p, base@, off as nat));
                },
            }
            assert(r@ =~= js_read_prim(*p, base@, off as nat));
            Ok(r)
        },
        ResolvedTypeRef::AbiType(AbiBuiltin::Ptr) => {
            r.append("{ lo: ");
            push_rd(&mut r, "readU32", base, off, 0);
            r.append(", hi: ");
            push_rd(&mut r, "readU32", base, off, 4);
            r.append(" }");
            assert(r@ =~= rd_lohi(base@, off as nat));
            Ok(r)
        },
        ResolvedTypeRef::AbiType(AbiBuiltin::StringView) | ResolvedTypeRef::AbiType(AbiBuiltin::Buffer) => {
            r.append("{ ptr_lo: ");
            push_rd(&mut r, "readU32", base, off, 0);
            r.append(", ptr_hi: ");
            push_rd(&mut r, "readU32", base, off, 4);
            r.append(", len: ");
            push_rd(&mut r, "readU32", base, off, 8);
            let ghost pre = r@;
            if matches!(ty, ResolvedTypeRef::AbiType(AbiBuiltin::Buffer)) {
                r.append(", cap: ");
                push_rd(&mut r, "readU32", base, off, 16);
            }
            r.append(" }");
            assert(r@ =~= js_read_view(base@, off as nat, *ty == ResolvedTypeRef::AbiType(AbiBuiltin::Buffer)));
            Ok(r)
        },
        ResolvedTypeRef::AbiType(AbiBuiltin::Void) => Err(unsupported("void")),
        ResolvedTypeRef::UserDefined(name) => {
            match js_enum_for_type(ty, ir.enums.as_slice()) {
                Some(e) => {
                    match e.repr {
                        ReprType::U8 => push_rd(&mut r, "readByte", base, off, 0),
                        ReprType::U16 => {
                            r.append("(");
                            push_rd(&mut r, "readByte", base, off, 0);
                            r.append(" | (");
                            push_rd(&mut r, "readByte", base, off, 1);
                            r.append(" << 8))");
                        },
                        ReprType::U32 => push_rd(&mut r, "readU32", base, off, 0),
                        ReprType::U64 => {
                            r.append("(");
                            push_rd(&mut r, "readU32", base, off, 0);
                            r.append(" + ");
                            push_rd(&mut r, "readU32", base, off, 4);
                            r.append(" * 4294967296)");
                        },
                    }
                    assert(r@ =~= js_read_repr(e.repr, base@, off as nat));
                    return Ok(r);
                },
                None => {},
            }
            match js_struct_for_type(ty, ir.types.as_slice()) {
                Some(s) => {
                    if fuel == 0 {
                        return Err(unsupported(name.as_str()));
                    }
                    let ghost fs = s.fields@;
                    let ghost fl: nat = (fuel - 1) as nat;
                    let mut items: String = String::new();
                    let mut offset: usize = off;
                    let n: usize = s.fields.len();
                    let mut i: usize = 0;
                    while i < n
                        invariant
                            n == fs.len(),
                            fs == s.fields@,
                            i <= n,
                            0 < fuel,
                            fl == fuel - 1,
                            *ty == ResolvedTypeRef::UserDefined(*name),
                            find_enum(ir.enums@, name@) is None,
                            find_type(ir.types@, name@) == Some(*s),
                            js_read_fields(fs.take(i as int), base@, off as nat, name@, *ir, fl) == Ok::<
                                (Seq<char>, nat),
                                Seq<char>,
                            >((items@, offset as nat)),
                        decreases n - i,
                    {
                        assert(fs.take(i + 1).drop_last() =~= fs.take(i as int));
                        assert(fs.take(i + 1).last() == s.fields@[i as int]);
                        let fty: &ResolvedTypeRef = &s.fields[i].ty;
                        let a: usize = match js_c_align(fty, ir) {
                            Ok(a) => a,
                            Err(e) => {
                                proof {
                                    lemma_read_fields_err(fs, i + 1, base@, off as nat, name@, *ir, fl);
                                }
                                return Err(e);
                            },
                        };
                        let o: usize = match align_up_checked(offset, a) {
                            Some(o) => o,
                            None => {
                                proof {
                                    lemma_read_fields_err(fs, i + 1, base@, off as nat, name@, *ir, fl);
                                }
                                return Err(unsupported(name.as_str()));
                            },
                        };
                        let x: String = match read_fuel(fty, base, o, ir, fuel - 1) {
                            Ok(x) => x,
                            Err(e) => {
                                proof {
                                    lemma_read_fields_err(fs, i + 1, base@, off as nat, name@, *ir, fl);
                                }
                                return Err(e);
                            },
                        };
                        let sz: usize = match js_c_size(fty, ir) {
                            Ok(sz) => sz,
                            Err(e) => {
                                proof {
                                    lemma_read_fields_err(fs, i + 1, base@, off as nat, name@, *ir, fl);
                                }
                                return Err(e);
                            },
                        };
                        offset = match o.checked_add(sz) {
                            Some(v) => v,
                            None => {
                                proof {
                                    lemma_read_fields_err(fs, i + 1, base@, off as nat, name@, *ir, fl);
                                }
                                return Err(unsupported(name.as_str()));
                            },
                        };
                        let ghost prev_items = items@;
                        if i > 0 {
                            items.append(", ");
                        }
                        items.append(s.fields[i].name.as_str());
                        items.append(": ");
                        items.append(x.as_str());
                        proof {
                            let item = s.fields@[i as int].name@ + ": "@ + x@;
                            if i == 0 {
                                assert(items@ =~= item);
                            } else {
                                assert(items@ =~= prev_items + ", "@ + item);
                            }
                        }
                        i = i + 1;
                    }
                    assert(fs.take(n as int) =~= fs);
                    r.append("{ ");
                    r.append(items.as_str());
                    r.append(" }");
                    assert(r@ =~= "{ "@ + items@ + " }"@);
                    Ok(r)
                },
                None => Err(unsupported(name.as_str())),
            }
        },
    }
}

/// JS expression that reads one ABI value of `ty` at `base + off` through the
/// loader bridge. Enums read their repr-width raw integer; user structs read
/// field by field into a (possibly nested) object literal; narrow signed
/// integers are sign-extended with shift pairs.
pub fn js_read_expr(ty: &ResolvedTypeRef, base: &str, off: usize, ir: &ValidatedIr) -> (r: Result<
    String,
    crate::error::CodegenError,
>)
    ensures
        match r {
            Ok(s) => js_read(*ty, base@, off as nat, *ir, layout_fuel(*ir)) == Ok::<Seq<char>, Seq<char>>(s@),
            Err(e) => js_read(*ty, base@, off as nat, *ir, layout_fuel(*ir)) matches Err(n) && unsupported_is(e, n),
        },
{
    read_fuel(ty, base, off, ir, ir.types.len())
}


/// `<indent>polyplug.<f>(<base + off>, <arg>);` and a newline.
pub open spec fn wl(indent: Seq<char>, f: Seq<char>, base: Seq<char>, off: nat, arg: Seq<char>) -> Seq<char> {
    indent + "polyplug."@ + f + "("@ + ptr_at(base, off) + ", "@ + arg + ");\n"@
}

fn push_wl(out: &mut String, indent: &str, f: &str, base: &str, off: usize, delta: u8, arg: &str)
    ensures
        final(out)@ == old(out)@ + wl(indent@, f@, base@, off as nat + delta as nat, arg@),
{
    out.append(indent);
    out.append("polyplug.");
    out.append(f);
    out.append("(");
    push_ptr_at(out, base, off, delta);
    out.append(", ");
    out.append(arg);
    out.append(");\n");
}

fn cat2(a: &str, b: &str) -> (r: String)
    ensures
        r@ == a@ + b@,
{
    let mut r: String = a.to_owned();
    r.append(b);
    r
}

fn cat3(a: &str, b: &str, c: &str) -> (r: String)
    ensures
        r@ == a@ + b@ + c@,
{
    let mut r: String = a.to_owned();
    r.append(b);
    r.append(c);
    r
}

/// Statements writing a primitive held in `v` at `base + off`.
pub open spec fn js_write_prim(p: PrimitiveType, indent: Seq<char>, base: Seq<char>, off: nat, v: Seq<char>) -> Seq<char> {
    match p {
        PrimitiveType::U8 | PrimitiveType::I8 => wl(indent, "writeByte"@, base, off, v + " & 0xFF"@),
        PrimitiveType::U16 | PrimitiveType::I16 => wl(indent, "writeByte"@, base, off, v + " & 0xFF"@) + wl(
            indent,
            "writeByte"@,
            base,
            off + 1,
            "("@ + v + " >> 8) & 0xFF"@,
        ),
        PrimitiveType::U32 => wl(indent, "writeU32"@, base, off, v),
        PrimitiveType::I32 => wl(indent, "writeI32"@, base, off, v),
        PrimitiveType::F32 => wl(indent, "writeF32"@, base, off, v),
        PrimitiveType::F64 => wl(indent, "writeF64"@, base, off, v),
        PrimitiveType::Bool => wl(indent, "writeByte"@, base, off, v + " ? 1 : 0"@),
        PrimitiveType::U64 | PrimitiveType::I64 => wl(indent, "writeU32"@, base, off, v + ".lo"@) + wl(
            indent,
            "writeU32"@,
            base,
            off + 4,
            v + ".hi"@,
        ),
    }
}

/// Statements writing a StringView (`with_cap` false) or a Buffer held in `v`.
pub open spec fn js_write_view(indent: Seq<char>, base: Seq<char>, off: nat, v: Seq<char>, with_cap: bool) -> Seq<char> {
    wl(indent, "writeU32"@, base, off, v + ".ptr_lo"@) + wl(indent, "writeU32"@, base, off + 4, v + ".ptr_hi"@) + wl(
        indent,
        "writeU32"@,
        base,
        off + 8,
        v + ".len"@,
    ) + wl(indent, "writeU32"@, base, off + 12, "0"@) + (if with_cap {
        wl(indent, "writeU32"@, base, off + 16, v + ".cap"@) + wl(indent, "writeU32"@, base, off + 20, "0"@)
    } else {
        Seq::<char>::empty()
    })
}

/// Statements writing an enum's raw repr integer held in `v`.
pub open spec fn js_write_repr(r: ReprType, indent: Seq<char>, base: Seq<char>, off: nat, v: Seq<char>) -> Seq<char> {
    match r {
        ReprType::U8 => wl(indent, "writeByte"@, base, off, "Number("@ + v + ") & 0xFF"@),
        ReprType::U16 => wl(indent, "writeByte"@, base, off, "Number("@ + v + ") & 0xFF"@) + wl(
            indent,
            "writeByte"@,
            base,
            off + 1,
            "(Number("@ + v + ") >> 8) & 0xFF"@,
        ),
        ReprType::U32 => wl(indent, "writeU32"@, base, off, "Number("@ + v + ")"@),
        ReprType::U64 => wl(indent, "writeU32"@, base, off, "Number("@ + v + ") >>> 0"@) + wl(
            indent,
            "writeU32"@,
            base,
            off + 4,
            "Math.floor(Number("@ + v + ") / 4294967296)"@,
        ),
    }
}

/// Statements writing the JS value `v` of `ty`'s shape at `base + off`, the
/// mirror of `js_read`; `Err` names the unsupported type.
pub open spec fn js_write(ty: ResolvedTypeRef, indent: Seq<char>, base: Seq<char>, off: nat, v: Seq<char>, ir: ValidatedIr, fuel: nat) -> Result<
    Seq<char>,
    Seq<char>,
>
    decreases fuel, 0nat,
{
    match ty {
        ResolvedTypeRef::Primitive(p) => Ok(js_write_prim(p, indent, base, off, v)),
        ResolvedTypeRef::AbiType(AbiBuiltin::Ptr) => Ok(
            wl(indent, "writeU32"@, base, off, v + ".lo"@) + wl(indent, "writeU32"@, base, off + 4, v + ".hi"@),
        ),
        ResolvedTypeRef::AbiType(AbiBuiltin::StringView) => Ok(js_write_view(indent, base, off, v, false)),
        ResolvedTypeRef::AbiType(AbiBuiltin::Buffer) => Ok(js_write_view(indent, base, off, v, true)),
        ResolvedTypeRef::AbiType(AbiBuiltin::Void) => Ok(Seq::<char>::empty()),
        ResolvedTypeRef::UserDefined(name) => match find_enum(ir.enums@, name@) {
            Some(e) => Ok(js_write_repr(e.repr, indent, base, off, v)),
            None => match find_type(ir.types@, name@) {
                Some(s) => if fuel == 0 {
                    Err(name@)
                } else {
                    match js_write_fields(s.fields@, indent, base, off, v, name@, ir, (fuel - 1) as nat) {
                        Err(e) => Err(e),
                        Ok(r) => Ok(r.0),
                    }
                },
                None => Err(name@),
            },
        },
    }
}

/// The writes of every field `v.<name>` at its C-layout offset from `off`, and
/// the offset just past the last field.
pub open spec fn js_write_fields(
    fs: Seq<ResolvedField>,
    indent: Seq<char>,
    base: Seq<char>,
    off: nat,
    v: Seq<char>,
    sname: Seq<char>,
    ir: ValidatedIr,
    fuel: nat,
) -> Result<(Seq<char>, nat), Seq<char>>
    decreases fuel, fs.len() + 1,
{
    if fs.len() == 0 {
        Ok((Seq::<char>::empty(), off))
    } else {
        match js_write_fields(fs.drop_last(), indent, base, off, v, sname, ir, fuel) {
            Err(e) => Err(e),
            Ok(prev) => match js_align(fs.last().ty, ir.types@, ir.enums@, layout_fuel(ir)) {
                Err(e) => Err(e),
                Ok(a) => {
                    let o = align_to(prev.1, a);
                    if !fits(o) {
                        Err(sname)
                    } else {
                        match js_write(fs.last().ty, indent, base, o, v + "."@ + fs.last().name@, ir, fuel) {
                            Err(e) => Err(e),
                            Ok(x) => match js_size(fs.last().ty, ir.types@, ir.enums@, layout_fuel(ir)) {
                                Err(e) => Err(e),
                                Ok(sz) => if fits(o + sz) {
                                    Ok((prev.0 + x, o + sz))
                                } else {
                                    Err(sname)
                                },
                            },
                        }
                    }
                },
            },
        }
    }
}

proof fn lemma_write_fields_err(
    fs: Seq<ResolvedField>,
    k: int,
    indent: Seq<char>,
    base: Seq<char>,
    off: nat,
    v: Seq<char>,
    sname: Seq<char>,
    ir: ValidatedIr,
    fuel: nat,
)
    requires
        0 <= k <= fs.len(),
        js_write_fields(fs.take(k), indent, base, off, v, sname, ir, fuel) is Err,
    ensures
        js_write_fields(fs, indent, base, off, v, sname, ir, fuel) == js_write_fields(fs.take(k), indent, base, off, v, sname, ir, fuel),
    decreases fs.len(),
{
    if k == fs.len() {
        assert(fs.take(k) =~= fs);
    } else {
        assert(fs.drop_last().take(k) =~= fs.take(k));
        lemma_write_fields_err(fs.drop_last(), k, indent, base, off, v, sname, ir, fuel);
    }
}

fn write_fuel(ty: &ResolvedTypeRef, indent: &str, base: &str, off: usize, v: &str, ir: &ValidatedIr, fuel: usize) -> (r: Result<
    String,
    crate::error::CodegenError,
>)
    ensures
        match r {
            Ok(s) => js_write(*ty, indent@, base@, off as nat, v@, *ir, fuel as nat) == Ok::<Seq<char>, Seq<char>>(s@),
            Err(e) => js_write(*ty, indent@, base@, off as nat, v@, *ir, fuel as nat) matches Err(n) && unsupported_is(e, n),
        },
    decreases fuel,
{
    let mut r: String = String::new();
    match ty {
        ResolvedTypeRef::Primitive(p) => {
            match p {
                PrimitiveType::U8 | PrimitiveType::I8 => {
                    push_wl(&mut r, indent, "writeByte", base, off, 0, cat2(v, " & 0xFF").as_str());
                },
                PrimitiveType::U16 | PrimitiveType::I16 => {
                    push_wl(&mut r, indent, "writeByte", base, off, 0, cat2(v, " & 0xFF").as_str());
                    push_wl(&mut r, indent, "writeByte", base, off, 1, cat3("(", v, " >> 8) & 0xFF").as_str());
                },
                PrimitiveType::U32 => push_wl(&mut r, indent, "writeU32", base, off, 0, v),
                PrimitiveType::I32 => push_wl(&mut r, indent, "writeI32", base, off, 0, v),
                PrimitiveType::F32 => push_wl(&mut r, indent, "writeF32", base, off, 0, v),
                PrimitiveType::F64 => push_wl(&mut r, indent, "writeF64", base, off, 0, v),
                PrimitiveType::Bool => {
                    push_wl(&mut r, indent, "writeByte", base, off, 0, cat2(v, " ? 1 : 0").as_str());
                },
                PrimitiveType::U64 | PrimitiveType::I64 => {
                    push_wl(&mut r, indent, "writeU32", base, off, 0, cat2(v, ".lo").as_str());
                    push_wl(&mut r, indent, "writeU32", base, off, 4, cat2(v, ".hi").as_str());
                },
            }
            assert(r@ =~= js_write_prim(*p, indent@, base@, off as nat, v@));
            Ok(r)
        },
        ResolvedTypeRef::AbiType(AbiBuiltin::Ptr) => {
            push_wl(&mut r, indent, "writeU32", base, off, 0, cat2(v, ".lo").as_str());
            push_wl(&mut r, indent, "writeU32", base, off, 4, cat2(v, ".hi").as_str());
            assert(r@ =~= wl(indent@, "writeU32"@, base@, off as nat, v@ + ".lo"@) + wl(indent@, "writeU32"@, base@, off as nat + 4, v@ + ".hi"@));
            Ok(r)
        },
        ResolvedTypeRef::AbiType(AbiBuiltin::StringView) | ResolvedTypeRef::AbiType(AbiBuiltin::Buffer) => {
            push_wl(&mut r, indent, "writeU32", base, off, 0, cat2(v, ".ptr_lo").as_str());
            push_wl(&mut r, indent, "writeU32", base, off, 4, cat2(v, ".ptr_hi").as_str());
            push_wl(&mut r, indent, "writeU32", base, off, 8, cat2(v, ".len").as_str());
            push_wl(&mut r, indent, "writeU32", base, off, 12, "0");
            if matches!(ty, ResolvedTypeRef::AbiType(AbiBuiltin::Buffer)) {
                push_wl(&mut r, indent, "writeU32", base, off, 16, cat2(v, ".cap").as_str());
                push_wl(&mut r, indent, "writeU32", base, off, 20, "0");
            }
            assert(r@ =~= js_write_view(indent@, base@, off as nat, v@, *ty == ResolvedTypeRef::AbiType(AbiBuiltin::Buffer)));
            Ok(r)
        },
        ResolvedTypeRef::AbiType(AbiBuiltin::Void) => Ok(r),
        ResolvedTypeRef::UserDefined(name) => {
            match js_enum_for_type(ty, ir.enums.as_slice()) {
                Some(e) => {
                    match e.repr {
                        ReprType::U8 => {
                            push_wl(&mut r, indent, "writeByte", base, off, 0, cat3("Number(", v, ") & 0xFF").as_str());
                        },
                        ReprType::U16 => {
                            push_wl(&mut r, indent, "writeByte", base, off, 0, cat3("Number(", v, ") & 0xFF").as_str());
                            push_wl(&mut r, indent, "writeByte", base, off, 1, cat3("(Number(", v, ") >> 8) & 0xFF").as_str());
                        },
                        ReprType::U32 => {
                            push_wl(&mut r, indent, "writeU32", base, off, 0, cat3("Number(", v, ")").as_str());
                        },
                        ReprType::U64 => {
                            push_wl(&mut r, indent, "writeU32", base, off, 0, cat3("Number(", v, ") >>> 0").as_str());
                            push_wl(
                                &mut r,
                                indent,
                                "writeU32",
                                base,
                                off,
                                4,
                                cat3("Math.floor(Number(", v, ") / 4294967296)").as_str(),
                            );
                        },
                    }
                    assert(r@ =~= js_write_repr(e.repr, indent@, base@, off as nat, v@));
                    return Ok(r);
                },
                None => {},
            }
            match js_struct_for_type(ty, ir.types.as_slice()) {
                Some(s) => {
                    if fuel == 0 {
                        return Err(unsupported(name.as_str()));
                    }
                    let ghost fs = s.fields@;
                    let ghost fl: nat = (fuel - 1) as nat;
                    let mut offset: usize = off;
                    let n: usize = s.fields.len();
                    let mut i: usize = 0;
                    while i < n
                        invariant
                            n == fs.len(),
                            fs == s.fields@,
                            i <= n,
                            0 < fuel,
                            fl == fuel - 1,
                            *ty == ResolvedTypeRef::UserDefined(*name),
                            find_enum(ir.enums@, name@) is None,
                            find_type(ir.types@, name@) == Some(*s),
                            js_write_fields(fs.take(i as int), indent@, base@, off as nat, v@, name@, *ir, fl) == Ok::<
                                (Seq<char>, nat),
                                Seq<char>,
                            >((r@, offset as nat)),
                        decreases n - i,
                    {
                        assert(fs.take(i + 1).drop_last() =~= fs.take(i as int));
                        assert(fs.take(i + 1).last() == s.fields@[i as int]);
                        let fty: &ResolvedTypeRef = &s.fields[i].ty;
                        let a: usize = match js_c_align(fty, ir) {
                            Ok(a) => a,
                            Err(e) => {
                                proof {
                                    lemma_write_fields_err(fs, i + 1, indent@, base@, off as nat, v@, name@, *ir, fl);
                                }
                                return Err(e);
                            },
                        };
                        let o: usize = match align_up_checked(offset, a) {
                            Some(o) => o,
                            None => {
                                proof {
                                    lemma_write_fields_err(fs, i + 1, indent@, base@, off as nat, v@, name@, *ir, fl);
                                }
                                return Err(unsupported(name.as_str()));
                            },
                        };
                        let fv: String = cat3(v, ".", s.fields[i].name.as_str());
                        let x: String = match write_fuel(fty, indent, base, o, fv.as_str(), ir, fuel - 1) {
                            Ok(x) => x,
                            Err(e) => {
                                proof {
                                    lemma_write_fields_err(fs, i + 1, indent@, base@, off as nat, v@, name@, *ir, fl);
                                }
                                return Err(e);
                            },
                        };
                        let sz: usize = match js_c_size(fty, ir) {
                            Ok(sz) => sz,
                            Err(e) => {
                                proof {
                                    lemma_write_fields_err(fs, i + 1, indent@, base@, off as nat, v@, name@, *ir, fl);
                                }
                                return Err(e);
                            },
                        };
                        offset = match o.checked_add(sz) {
                            Some(w) => w,
                            None => {
                                proof {
                                    lemma_write_fields_err(fs, i + 1, indent@, base@, off as nat, v@, name@, *ir, fl);
                                }
                                return Err(unsupported(name.as_str()));
                            },
                        };
                        r.append(x.as_str());
                        i = i + 1;
                    }
                    assert(fs.take(n as int) =~= fs);
                    Ok(r)
                },
                None => Err(unsupported(name.as_str())),
            }
        },
    }
}

/// Emit statements writing `value` (a JS expression of `ty`'s shape) into the
/// out slot at `base + off` through the loader bridge; on an error `out` is
/// left unchanged.
pub fn emit_js_write_value(
    out: &mut String,
    indent: &str,
    ty: &ResolvedTypeRef,
    base: &str,
    off: usize,
    value: &str,
    ir: &ValidatedIr,
) -> (r: Result<(), crate::error::CodegenError>)
    ensures
        match r {
            Ok(_) => js_write(*ty, indent@, base@, off as nat, value@, *ir, layout_fuel(*ir)) matches Ok(t) && final(out)@
                == old(out)@ + t,
            Err(e) => js_write(*ty, indent@, base@, off as nat, value@, *ir, layout_fuel(*ir)) matches Err(n) && unsupported_is(
                e,
                n,
            ) && final(out)@ == old(out)@,
        },
{
    match write_fuel(ty, indent, base, off, value, ir, ir.types.len()) {
        Ok(t) => {
            out.append(t.as_str());
            Ok(())
        },
        Err(e) => Err(e),
    }
}

/// The loader-side write of a top-level StringView return: the author returns
/// a plain string, which is encoded and copied into this call's arena.
pub const JS_STRING_VIEW_RETURN: &'static str = "    const _retBytes = _ppEncodeUtf8(result);\n    const _retBuf = polyplug.arenaAlloc(_retBytes.length > 0 ? _retBytes.length : 1, arena_ptr);\n    const _retPtr = _retBuf[0] + _retBuf[1] * 4294967296;\n    for (let _i = 0; _i < _retBytes.length; _i++) { polyplug.writeByte(_retPtr + _i, _retBytes[_i]); }\n    polyplug.writeU32(out_ptr, _retBuf[0]);\n    polyplug.writeU32(out_ptr + 4, _retBuf[1]);\n    polyplug.writeU32(out_ptr + 8, _retBytes.length);\n    polyplug.writeU32(out_ptr + 12, 0);\n";

/// The dispatch wrapper's write of the returned `result` into `out_ptr`.
pub open spec fn js_guest_return(ret_ty: ResolvedTypeRef, ir: ValidatedIr) -> Result<Seq<char>, Seq<char>> {
    if ret_ty == ResolvedTypeRef::AbiType(AbiBuiltin::StringView) {
        Ok(JS_STRING_VIEW_RETURN@)
    } else {
        js_write(ret_ty, "    "@, "out_ptr"@, 0, "result"@, ir, layout_fuel(ir))
    }
}

/// Emit the dispatch wrapper's return write into `out_ptr` (offset 0): a
/// StringView return is arena-allocated from the author's plain string, every
/// other shape is written as the value the author returns.
pub fn emit_js_guest_return_write(out: &mut String, ret_ty: &ResolvedTypeRef, ir: &ValidatedIr) -> (r: Result<
    (),
    crate::error::CodegenError,
>)
    ensures
        match r {
            Ok(_) => js_guest_return(*ret_ty, *ir) matches Ok(t) && final(out)@ == old(out)@ + t,
            Err(e) => js_guest_return(*ret_ty, *ir) matches Err(n) && unsupported_is(e, n) && final(out)@ == old(out)@,
        },
{
    if matches!(ret_ty, ResolvedTypeRef::AbiType(AbiBuiltin::StringView)) {
        out.append(JS_STRING_VIEW_RETURN);
        return Ok(());
    }
    emit_js_write_value(out, "    ", ret_ty, "out_ptr", 0, "result", ir)
}

/// The file-level `_ppEncodeUtf8(str)` helper: a manual UTF-8 encoder, since
/// QuickJS has no `TextEncoder`.
pub const TS_UTF8_ENCODER: &'static str = "// UTF-8 encoder usable in QuickJS (where TextEncoder is absent).\nfunction _ppEncodeUtf8(str: string): Uint8Array {\n    if (typeof TextEncoder !== 'undefined') { return new TextEncoder().encode(str); }\n    const out: number[] = [];\n    for (let i = 0; i < str.length; i++) {\n        let code = str.charCodeAt(i);\n        if (code >= 0xD800 && code <= 0xDBFF) {\n            const low = str.charCodeAt(++i);\n            code = 0x10000 + ((code - 0xD800) << 10) + (low - 0xDC00);\n        }\n        if (code < 0x80) { out.push(code); }\n        else if (code < 0x800) { out.push(0xC0 | (code >> 6), 0x80 | (code & 0x3F)); }\n        else if (code < 0x10000) { out.push(0xE0 | (code >> 12), 0x80 | ((code >> 6) & 0x3F), 0x80 | (code & 0x3F)); }\n        else { out.push(0xF0 | (code >> 18), 0x80 | ((code >> 12) & 0x3F), 0x80 | ((code >> 6) & 0x3F), 0x80 | (code & 0x3F)); }\n    }\n    return new Uint8Array(out);\n}\n\n";

/// Emit the file-level `_ppEncodeUtf8(str)` helper.
pub fn emit_ts_utf8_encoder_helper(out: &mut String)
    ensures
        final(out)@ == old(out)@ + TS_UTF8_ENCODER@,
{
    out.append(TS_UTF8_ENCODER);
}

// ─── guest/contracts.ts: plugin interfaces and ABI wrappers ─────────────────

/// `acc` followed by one `//   fn(params): ret` comment line per function.
pub open spec fn js_fn_comments(acc: Seq<char>, funcs: Seq<ResolvedFunction>) -> Seq<char>
    decreases funcs.len(),
{
    if funcs.len() == 0 {
        acc
    } else {
        let f = funcs.last();
        js_fn_comments(acc, funcs.drop_last()) + "//   "@ + f.name@ + "("@ + ts_params(f.params@, false) + "): "@ + ts_ret(f.returns)
            + "\n"@
    }
}

/// The `functions` and `factory` slots of a plugin interface object.
pub const JS_INTERFACE_SLOTS: &'static str = "    functions: [] as ((impl: any, args_ptr: number, out_ptr: number, arena_ptr: number, bridge: any) => number)[],\n    factory: null as null | ((bridge: any, hostLo: number, hostHi: number) => any),\n";

/// `acc` followed by the comment block, `<PV>_INTERFACE` and
/// `<PV>_DESCRIPTOR` of a plugin.
pub open spec fn js_plugin_head(acc: Seq<char>, plugin_name: Seq<char>, pv: Seq<char>, c: ResolvedContract) -> Seq<char> {
    js_plugin_descriptor(
        js_plugin_interface_obj(
            js_fn_comments(
                acc + "// Plugin: "@ + plugin_name + " ("@ + c.name@ + "@"@ + dec_digits(c.version.major as nat) + ")\n"@,
                c.functions@,
            ),
            pv,
            c,
        ),
        plugin_name,
        pv,
        c,
    )
}

/// `acc` followed by the `<PV>_INTERFACE` object: contract id halves,
/// dispatch type, function count, slots, contract name and packed version.
pub open spec fn js_plugin_interface_obj(acc: Seq<char>, pv: Seq<char>, c: ResolvedContract) -> Seq<char> {
    let id = guest_contract_id_of(c.name@, c.version.major);
    acc + "\nexport const "@ + pv + "_INTERFACE = {\n"@ + "    contractLo: 0x"@ + hex_digits((id as nat) % 4294967296, 8)
        + ",\n"@ + "    contractHi: 0x"@ + hex_digits((id as nat) / 4294967296, 8) + ",\n"@
        + "    dispatchType: DispatchType.VirtualMachine,\n"@ + "    fnCount: "@ + dec_digits(c.functions@.len()) + ",\n"@
        + JS_INTERFACE_SLOTS@ + "    contractName: \""@ + c.name@ + "@"@ + dec_digits(c.version.major as nat) + "\",\n"@
        + "    version: 0x"@ + hex_digits(((c.version.major as nat) % 65536) * 65536, 8) + ",\n"@ + "};\n"@
}

/// `acc` followed by the `<PV>_DESCRIPTOR` object: plugin name, contract
/// name and version.
pub open spec fn js_plugin_descriptor(acc: Seq<char>, plugin_name: Seq<char>, pv: Seq<char>, c: ResolvedContract) -> Seq<char> {
    acc + "\nexport const "@ + pv + "_DESCRIPTOR = {\n"@ + "    name: \""@ + plugin_name + "\",\n"@ + "    contractName: \""@
        + c.name@ + "@"@ + dec_digits(c.version.major as nat) + "\",\n"@ + "    version: { major: "@ + dec_digits(
        c.version.major as nat,
    ) + ", minor: "@ + dec_digits(c.version.minor as nat) + ", patch: "@ + dec_digits(c.version.patch as nat) + " }\n"@
        + "};\n"@
}

fn push_plugin_head(out: &mut String, plugin_name: &str, pv: &str, c: &ResolvedContract)
    ensures
        final(out)@ == js_plugin_head(old(out)@, plugin_name@, pv@, *c),
{
    out.append("// Plugin: ");
    out.append(plugin_name);
    out.append(" (");
    out.append(c.name.as_str());
    out.append("@");
    push_u32(out, c.version.major);
    out.append(")\n");
    let ghost o1 = out@;
    let n: usize = c.functions.len();
    let mut i: usize = 0;
    while i < n
        invariant
            n == c.functions@.len(),
            i <= n,
            out@ == js_fn_comments(o1, c.functions@.take(i as int)),
        decreases n - i,
    {
        let f: &ResolvedFunction = &c.functions[i];
        out.append("//   ");
        out.append(f.name.as_str());
        out.append("(");
        push_ts_params(out, &f.params, false);
        out.append("): ");
        let rt: String = ts_ret_name(&f.returns);
        out.append(rt.as_str());
        out.append("\n");
        assert(c.functions@.take(i + 1).drop_last() =~= c.functions@.take(i as int));
        i = i + 1;
    }
    assert(c.functions@.take(n as int) =~= c.functions@);
    push_plugin_interface_obj(out, pv, c);
    push_plugin_descriptor(out, plugin_name, pv, c);
}

fn push_plugin_interface_obj(out: &mut String, pv: &str, c: &ResolvedContract)
    ensures
        final(out)@ == js_plugin_interface_obj(old(out)@, pv@, *c),
{
    out.append("\nexport const ");
    out.append(pv);
    out.append("_INTERFACE = {\n");
    out.append("    contractLo: 0x");
    let id: u64 = guest_contract_id(c.name.as_str(), c.version.major);
    let lo: u64 = id % 4294967296;
    let hi: u64 = id / 4294967296;
    assert((lo as u32) as nat == (id as nat) % 4294967296);
    assert((hi as u32) as nat == (id as nat) / 4294967296);
    crate::text::push_hex8(out, lo as u32);
    out.append(",\n");
    out.append("    contractHi: 0x");
    crate::text::push_hex8(out, hi as u32);
    out.append(",\n");
    out.append("    dispatchType: DispatchType.VirtualMachine,\n");
    out.append("    fnCount: ");
    push_usize(out, c.functions.len());
    out.append(",\n");
    out.append(JS_INTERFACE_SLOTS);
    out.append("    contractName: \"");
    out.append(c.name.as_str());
    out.append("@");
    push_u32(out, c.version.major);
    out.append("\",\n");
    out.append("    version: 0x");
    let vm: u64 = (c.version.major as u64 % 65536) * 65536;
    assert((vm as u32) as nat == ((c.version.major as nat) % 65536) * 65536);
    crate::text::push_hex8(out, vm as u32);
    out.append(",\n");
    out.append("};\n");
}

fn push_plugin_descriptor(out: &mut String, plugin_name: &str, pv: &str, c: &ResolvedContract)
    ensures
        final(out)@ == js_plugin_descriptor(old(out)@, plugin_name@, pv@, *c),
{
    out.append("\nexport const ");
    out.append(pv);
    out.append("_DESCRIPTOR = {\n");
    out.append("    name: \"");
    out.append(plugin_name);
    out.append("\",\n");
    out.append("    contractName: \"");
    out.append(c.name.as_str());
    out.append("@");
    push_u32(out, c.version.major);
    out.append("\",\n");
    out.append("    version: { major: ");
    push_u32(out, c.version.major);
    out.append(", minor: ");
    push_u32(out, c.version.minor);
    out.append(", patch: ");
    push_u32(out, c.version.patch);
    out.append(" }\n");
    out.append("};\n");
}

/// `<pvl>_fn<idx>_abi_wrapper`.
pub open spec fn js_wrapper_name(pvl: Seq<char>, idx: nat) -> Seq<char> {
    pvl + "_fn"@ + dec_digits(idx) + "_abi_wrapper"@
}

/// `arg_<name>` for every parameter, joined with `", "`.
pub open spec fn js_arg_names(params: Seq<ResolvedParam>) -> Seq<char>
    decreases params.len(),
{
    if params.len() == 0 {
        Seq::<char>::empty()
    } else if params.len() == 1 {
        "arg_"@ + params[0].name@
    } else {
        js_arg_names(params.drop_last()) + ", "@ + "arg_"@ + params.last().name@
    }
}

fn push_arg_names(out: &mut String, params: &Vec<ResolvedParam>)
    ensures
        final(out)@ == old(out)@ + js_arg_names(params@),
{
    let ghost o0 = out@;
    let n: usize = params.len();
    let mut i: usize = 0;
    while i < n
        invariant
            n == params@.len(),
            i <= n,
            out@ == o0 + js_arg_names(params@.take(i as int)),
        decreases n - i,
    {
        if i > 0 {
            out.append(", ");
        }
        out.append("arg_");
        out.append(params[i].name.as_str());
        proof {
            assert(params@.take(i + 1).drop_last() =~= params@.take(i as int));
            if i == 0 {
                assert(params@.take(1)[0] == params@[0]);
                assert(js_arg_names(params@.take(0)) =~= Seq::<char>::empty());
            }
        }
        i = i + 1;
    }
    assert(params@.take(n as int) =~= params@);
}

/// `    var arg_<name> = <expr>;`
pub open spec fn js_var_line(name: Seq<char>, x: Seq<char>) -> Seq<char> {
    "    var arg_"@ + name + " = "@ + x + ";\n"@
}

/// The reads of 2+ parameters from the C-layout arg pack at `args_ptr`, and
/// the offset past the last one; an offset overflow is reported under the
/// function's name.
pub open spec fn js_arg_reads(params: Seq<ResolvedParam>, fname: Seq<char>, ir: ValidatedIr) -> Result<(Seq<char>, nat), Seq<char>>
    decreases params.len(),
{
    if params.len() == 0 {
        Ok((Seq::<char>::empty(), 0))
    } else {
        match js_arg_reads(params.drop_last(), fname, ir) {
            Err(e) => Err(e),
            Ok(prev) => match js_align(params.last().ty, ir.types@, ir.enums@, layout_fuel(ir)) {
                Err(e) => Err(e),
                Ok(a) => {
                    let o = align_to(prev.1, a);
                    if !fits(o) {
                        Err(fname)
                    } else {
                        match js_read(params.last().ty, "args_ptr"@, o, ir, layout_fuel(ir)) {
                            Err(e) => Err(e),
                            Ok(x) => match js_size(params.last().ty, ir.types@, ir.enums@, layout_fuel(ir)) {
                                Err(e) => Err(e),
                                Ok(sz) => if fits(o + sz) {
                                    Ok((prev.0 + js_var_line(params.last().name@, x), o + sz))
                                } else {
                                    Err(fname)
                                },
                            },
                        }
                    }
                },
            },
        }
    }
}

proof fn lemma_arg_reads_err(params: Seq<ResolvedParam>, k: int, fname: Seq<char>, ir: ValidatedIr)
    requires
        0 <= k <= params.len(),
        js_arg_reads(params.take(k), fname, ir) is Err,
    ensures
        js_arg_reads(params, fname, ir) == js_arg_reads(params.take(k), fname, ir),
    decreases params.len(),
{
    if k == params.len() {
        assert(params.take(k) =~= params);
    } else {
        assert(params.drop_last().take(k) =~= params.take(k));
        lemma_arg_reads_err(params.drop_last(), k, fname, ir);
    }
}

/// The argument unpacking of a dispatch wrapper: one value at `args_ptr` for
/// a single parameter, the C-layout arg pack for two or more.
pub open spec fn js_wrapper_args(params: Seq<ResolvedParam>, fname: Seq<char>, ir: ValidatedIr) -> Result<Seq<char>, Seq<char>> {
    if params.len() == 1 {
        match js_read(params[0].ty, "args_ptr"@, 0, ir, layout_fuel(ir)) {
            Err(e) => Err(e),
            Ok(x) => Ok(js_var_line(params[0].name@, x)),
        }
    } else if params.len() >= 2 {
        match js_arg_reads(params, fname, ir) {
            Err(e) => Err(e),
            Ok(r) => Ok(r.0),
        }
    } else {
        Ok(Seq::<char>::empty())
    }
}

fn push_wrapper_args(out: &mut String, f: &ResolvedFunction, ir: &ValidatedIr) -> (r: Result<(), crate::error::CodegenError>)
    ensures
        match r {
            Ok(_) => js_wrapper_args(f.params@, f.name@, *ir) matches Ok(t) && final(out)@ == old(out)@ + t,
            Err(e) => js_wrapper_args(f.params@, f.name@, *ir) matches Err(n) && unsupported_is(e, n),
        },
{
    let ghost o0 = out@;
    let params: &Vec<ResolvedParam> = &f.params;
    if params.len() == 1 {
        let x: String = match js_read_expr(&params[0].ty, "args_ptr", 0, ir) {
            Ok(x) => x,
            Err(e) => {
                return Err(e);
            },
        };
        out.append("    var arg_");
        out.append(params[0].name.as_str());
        out.append(" = ");
        out.append(x.as_str());
        out.append(";\n");
        assert(out@ =~= o0 + js_var_line(params@[0].name@, x@));
        Ok(())
    } else if params.len() >= 2 {
        let ghost ps = params@;
        let n: usize = params.len();
        let mut acc: String = String::new();
        let mut offset: usize = 0;
        let mut i: usize = 0;
        while i < n
            invariant
                n == ps.len(),
                ps == f.params@,
                *params == f.params,
                i <= n,
                n >= 2,
                js_arg_reads(ps.take(i as int), f.name@, *ir) == Ok::<(Seq<char>, nat), Seq<char>>((acc@, offset as nat)),
            decreases n - i,
        {
            assert(ps.take(i + 1).drop_last() =~= ps.take(i as int));
            assert(ps.take(i + 1).last() == ps[i as int]);
            let pty: &ResolvedTypeRef = &params[i].ty;
            let a: usize = match js_c_align(pty, ir) {
                Ok(a) => a,
                Err(e) => {
                    proof {
                        lemma_arg_reads_err(ps, i + 1, f.name@, *ir);
                    }
                    return Err(e);
                },
            };
            let o: usize = match align_up_checked(offset, a) {
                Some(o) => o,
                None => {
                    proof {
                        lemma_arg_reads_err(ps, i + 1, f.name@, *ir);
                    }
                    return Err(unsupported(f.name.as_str()));
                },
            };
            let x: String = match js_read_expr(pty, "args_ptr", o, ir) {
                Ok(x) => x,
                Err(e) => {
                    proof {
                        lemma_arg_reads_err(ps, i + 1, f.name@, *ir);
                    }
                    return Err(e);
                },
            };
            let sz: usize = match js_c_size(pty, ir) {
                Ok(sz) => sz,
                Err(e) => {
                    proof {
                        lemma_arg_reads_err(ps, i + 1, f.name@, *ir);
                    }
                    return Err(e);
                },
            };
            offset = match o.checked_add(sz) {
                Some(w) => w,
                None => {
                    proof {
                        lemma_arg_reads_err(ps, i + 1, f.name@, *ir);
                    }
                    return Err(unsupported(f.name.as_str()));
                },
            };
            let ghost before = acc@;
            acc.append("    var arg_");
            acc.append(params[i].name.as_str());
            acc.append(" = ");
            acc.append(x.as_str());
            acc.append(";\n");
            assert(acc@ =~= before + js_var_line(ps[i as int].name@, x@));
            i = i + 1;
        }
        assert(ps.take(n as int) =~= ps);
        out.append(acc.as_str());
        Ok(())
    } else {
        assert(out@ =~= o0 + Seq::<char>::empty());
        Ok(())
    }
}

/// The fixed part of a dispatch wrapper's head after its name.
pub const JS_WRAPPER_HEAD: &'static str = "(impl: any, args_ptr: number, out_ptr: number, arena_ptr: number, bridge: any): number {\n    // SAFETY: args_ptr and out_ptr are valid addresses passed as f64\n    // by the loader. readU32/writeU32 accept f64 and convert to usize.\n    // `impl` is the per-instance impl object the loader resolved for this\n    // call (built by the factory); the loader passes it as the first argument.\n    const polyplug = bridge;\n    if (!polyplug) return 1;\n    if (!impl) return 1;\n";

/// The name and null checks of function `idx`'s dispatch wrapper.
pub open spec fn js_wrapper_head(pvl: Seq<char>, idx: nat, f: ResolvedFunction) -> Seq<char> {
    "\nfunction "@ + js_wrapper_name(pvl, idx) + JS_WRAPPER_HEAD@ + (if f.params@.len() > 0 {
        "    if (!args_ptr) return 8;\n"@
    } else {
        Seq::<char>::empty()
    }) + (if f.returns is Some {
        "    if (!out_ptr) return 8;\n"@
    } else {
        Seq::<char>::empty()
    })
}

/// The call of the impl's `fn<idx>` with the unpacked arguments.
pub open spec fn js_wrapper_call(idx: nat, f: ResolvedFunction) -> Seq<char> {
    if f.returns is Some {
        "    var result = impl.fn"@ + dec_digits(idx) + "("@ + js_arg_names(f.params@) + ");\n"@
    } else {
        "    impl.fn"@ + dec_digits(idx) + "("@ + js_arg_names(f.params@) + ");\n"@
    }
}

/// The write of the result, if the function returns one.
pub open spec fn js_wrapper_ret(f: ResolvedFunction, ir: ValidatedIr) -> Result<Seq<char>, Seq<char>> {
    match f.returns {
        None => Ok(Seq::<char>::empty()),
        Some(t) => js_guest_return(t, ir),
    }
}

/// The dispatch wrapper of function `idx`: null checks, argument reads, the
/// call of the per-instance impl and the write of its result.
#[verifier::opaque]
pub open spec fn js_abi_wrapper(pvl: Seq<char>, idx: nat, f: ResolvedFunction, ir: ValidatedIr) -> Result<Seq<char>, Seq<char>> {
    match js_wrapper_args(f.params@, f.name@, ir) {
        Err(e) => Err(e),
        Ok(a) => match js_wrapper_ret(f, ir) {
            Err(e) => Err(e),
            Ok(w) => Ok(js_wrapper_head(pvl, idx, f) + a + js_wrapper_call(idx, f) + w + "    return 0;\n}\n"@),
        },
    }
}

fn push_abi_wrapper(out: &mut String, pvl: &str, idx: usize, f: &ResolvedFunction, ir: &ValidatedIr) -> (r: Result<
    (),
    crate::error::CodegenError,
>)
    ensures
        match r {
            Ok(_) => js_abi_wrapper(pvl@, idx as nat, *f, *ir) matches Ok(t) && final(out)@ == old(out)@ + t,
            Err(e) => js_abi_wrapper(pvl@, idx as nat, *f, *ir) matches Err(n) && unsupported_is(e, n),
        },
{
    reveal(js_abi_wrapper);
    let mut head: String = String::new();
    head.append("\nfunction ");
    head.append(pvl);
    head.append("_fn");
    push_usize(&mut head, idx);
    head.append("_abi_wrapper");
    head.append(JS_WRAPPER_HEAD);
    if f.params.len() > 0 {
        head.append("    if (!args_ptr) return 8;\n");
    }
    if f.returns.is_some() {
        head.append("    if (!out_ptr) return 8;\n");
    }
    assert(head@ =~= js_wrapper_head(pvl@, idx as nat, *f));
    let mut args: String = String::new();
    match push_wrapper_args(&mut args, f, ir) {
        Ok(_) => {},
        Err(e) => {
            return Err(e);
        },
    }
    assert(js_wrapper_args(f.params@, f.name@, *ir) == Ok::<Seq<char>, Seq<char>>(args@));
    let mut call: String = String::new();
    if f.returns.is_some() {
        call.append("    var result = impl.fn");
    } else {
        call.append("    impl.fn");
    }
    push_usize(&mut call, idx);
    call.append("(");
    push_arg_names(&mut call, &f.params);
    call.append(");\n");
    assert(call@ =~= js_wrapper_call(idx as nat, *f));
    let mut ret: String = String::new();
    match &f.returns {
        Some(t) => {
            match emit_js_guest_return_write(&mut ret, t, ir) {
                Ok(_) => {},
                Err(e) => {
                    return Err(e);
                },
            }
        },
        None => {},
    }
    assert(js_wrapper_ret(*f, *ir) == Ok::<Seq<char>, Seq<char>>(ret@));
    let ghost o0 = out@;
    out.append(head.as_str());
    out.append(args.as_str());
    out.append(call.as_str());
    out.append(ret.as_str());
    out.append("    return 0;\n}\n");
    assert(out@ =~= o0 + (head@ + args@ + call@ + ret@ + "    return 0;\n}\n"@));
    Ok(())
}

/// Every dispatch wrapper of a contract's functions, in order.
pub open spec fn js_abi_wrappers(funcs: Seq<ResolvedFunction>, pvl: Seq<char>, ir: ValidatedIr) -> Result<Seq<char>, Seq<char>>
    decreases funcs.len(),
{
    if funcs.len() == 0 {
        Ok(Seq::<char>::empty())
    } else {
        match js_abi_wrappers(funcs.drop_last(), pvl, ir) {
            Err(e) => Err(e),
            Ok(p) => match js_abi_wrapper(pvl, (funcs.len() - 1) as nat, funcs.last(), ir) {
                Err(e) => Err(e),
                Ok(w) => Ok(p + w),
            },
        }
    }
}

proof fn lemma_abi_wrappers_err(funcs: Seq<ResolvedFunction>, k: int, pvl: Seq<char>, ir: ValidatedIr)
    requires
        0 <= k <= funcs.len(),
        js_abi_wrappers(funcs.take(k), pvl, ir) is Err,
    ensures
        js_abi_wrappers(funcs, pvl, ir) == js_abi_wrappers(funcs.take(k), pvl, ir),
    decreases funcs.len(),
{
    if k == funcs.len() {
        assert(funcs.take(k) =~= funcs);
    } else {
        assert(funcs.drop_last().take(k) =~= funcs.take(k));
        lemma_abi_wrappers_err(funcs.drop_last(), k, pvl, ir);
    }
}

/// The type a function of the per-instance impl object returns: a StringView
/// return is a plain `string`.
pub open spec fn js_impl_ret(ret: Option<ResolvedTypeRef>) -> Seq<char> {
    match ret {
        None => "void"@,
        Some(ResolvedTypeRef::AbiType(AbiBuiltin::StringView)) => "string"@,
        Some(t) => ts_type(t),
    }
}

/// `fn<idx>: (<params>) => <ret>`.
pub open spec fn js_impl_member(idx: nat, f: ResolvedFunction) -> Seq<char> {
    "fn"@ + dec_digits(idx) + ": ("@ + ts_params(f.params@, false) + ") => "@ + js_impl_ret(f.returns)
}

fn push_impl_member(out: &mut String, idx: usize, f: &ResolvedFunction)
    ensures
        final(out)@ == old(out)@ + js_impl_member(idx as nat, *f),
{
    let ghost o0 = out@;
    out.append("fn");
    push_usize(out, idx);
    out.append(": (");
    push_ts_params(out, &f.params, false);
    out.append(") => ");
    let ghost o1 = out@;
    match &f.returns {
        None => out.append("void"),
        Some(ResolvedTypeRef::AbiType(AbiBuiltin::StringView)) => out.append("string"),
        Some(t) => {
            let ts: String = ts_type_ref(t);
            out.append(ts.as_str());
        },
    }
    assert(out@ =~= o1 + js_impl_ret(f.returns));
    assert(out@ =~= o0 + js_impl_member(idx as nat, *f));
}

/// `fn<idx>: (<params>) => <ret>` for every function, joined with `"; "`.
pub open spec fn js_impl_members(funcs: Seq<ResolvedFunction>) -> Seq<char>
    decreases funcs.len(),
{
    if funcs.len() == 0 {
        Seq::<char>::empty()
    } else {
        let f = funcs.last();
        let m = js_impl_member((funcs.len() - 1) as nat, f);
        if funcs.len() == 1 {
            m
        } else {
            js_impl_members(funcs.drop_last()) + "; "@ + m
        }
    }
}

/// The wrapper names of functions `0..n`, joined with `", "`.
pub open spec fn js_wrapper_names(pvl: Seq<char>, n: nat) -> Seq<char>
    decreases n,
{
    if n == 0 {
        Seq::<char>::empty()
    } else if n == 1 {
        js_wrapper_name(pvl, 0)
    } else {
        js_wrapper_names(pvl, (n - 1) as nat) + ", "@ + js_wrapper_name(pvl, (n - 1) as nat)
    }
}

/// `set<Plugin>Factory`, which installs the factory and the wrappers.
pub open spec fn js_plugin_tail(plugin_name: Seq<char>, pv: Seq<char>, pvl: Seq<char>, c: ResolvedContract) -> Seq<char> {
    "\nexport function "@ + ts_set_factory(plugin_name) + "(factory: (bridge: any, hostLo: number, hostHi: number) => "@ + "{ "@
        + js_impl_members(c.functions@) + " }"@ + "): void {\n"@ + "    "@ + pv + "_INTERFACE.factory = factory;\n"@ + "    "@ + pv
        + "_INTERFACE.functions = ["@ + js_wrapper_names(pvl, c.functions@.len()) + "];\n"@ + "}\n"@
}

fn push_plugin_tail(out: &mut String, plugin_name: &str, pv: &str, pvl: &str, c: &ResolvedContract)
    ensures
        final(out)@ == old(out)@ + js_plugin_tail(plugin_name@, pv@, pvl@, *c),
{
    let ghost o0 = out@;
    let sf: String = set_factory_name_of(plugin_name);
    out.append("\nexport function ");
    out.append(sf.as_str());
    out.append("(factory: (bridge: any, hostLo: number, hostHi: number) => ");
    out.append("{ ");
    let ghost o1 = out@;
    let n: usize = c.functions.len();
    let mut i: usize = 0;
    while i < n
        invariant
            n == c.functions@.len(),
            i <= n,
            out@ == o1 + js_impl_members(c.functions@.take(i as int)),
        decreases n - i,
    {
        let f: &ResolvedFunction = &c.functions[i];
        if i > 0 {
            out.append("; ");
        }
        push_impl_member(out, i, f);
        proof {
            assert(c.functions@.take(i + 1).drop_last() =~= c.functions@.take(i as int));
            assert(c.functions@.take(i + 1).last() == c.functions@[i as int]);
            if i == 0 {
                assert(js_impl_members(c.functions@.take(0)) =~= Seq::<char>::empty());
            }
        }
        i = i + 1;
    }
    assert(c.functions@.take(n as int) =~= c.functions@);
    out.append(" }");
    out.append("): void {\n");
    out.append("    ");
    out.append(pv);
    out.append("_INTERFACE.factory = factory;\n");
    out.append("    ");
    out.append(pv);
    out.append("_INTERFACE.functions = [");
    let ghost o2 = out@;
    let mut k: usize = 0;
    while k < n
        invariant
            k <= n,
            out@ == o2 + js_wrapper_names(pvl@, k as nat),
        decreases n - k,
    {
        if k > 0 {
            out.append(", ");
        }
        out.append(pvl);
        out.append("_fn");
        push_usize(out, k);
        out.append("_abi_wrapper");
        proof {
            if k == 0 {
                assert(js_wrapper_names(pvl@, 0) =~= Seq::<char>::empty());
            }
        }
        k = k + 1;
    }
    out.append("];\n");
    out.append("}\n");
    assert(out@ =~= o0 + js_plugin_tail(plugin_name@, pv@, pvl@, *c));
}

/// A plugin's interface object, descriptor, dispatch wrappers and factory
/// installer; `Err` names the first type a wrapper cannot marshal.
pub open spec fn js_plugin_interface(plugin_name: Seq<char>, c: ResolvedContract, ir: ValidatedIr) -> Result<Seq<char>, Seq<char>> {
    let pv = ts_plugin_var(plugin_name);
    let pvl = lower_str(pv);
    match js_abi_wrappers(c.functions@, pvl, ir) {
        Err(e) => Err(e),
        Ok(w) => Ok(js_plugin_head(Seq::<char>::empty(), plugin_name, pv, c) + w + js_plugin_tail(plugin_name, pv, pvl, c)),
    }
}

/// Emit a plugin's interface, descriptor, per-signature ABI wrappers and
/// factory installer; on an error `out` is left unchanged.
pub fn render_plugin_interface_quickjs(out: &mut String, plugin_name: &str, contract: &ResolvedContract, ir: &ValidatedIr) -> (r: Result<
    (),
    crate::error::CodegenError,
>)
    ensures
        match r {
            Ok(_) => js_plugin_interface(plugin_name@, *contract, *ir) matches Ok(t) && final(out)@ == old(out)@ + t,
            Err(e) => js_plugin_interface(plugin_name@, *contract, *ir) matches Err(n) && unsupported_is(e, n) && final(out)@
                == old(out)@,
        },
{
    let pv: String = contract_upper_name(plugin_name);
    let pvl: String = crate::text::to_lowercase(pv.as_str());
    let mut ws: String = String::new();
    let n: usize = contract.functions.len();
    let mut i: usize = 0;
    while i < n
        invariant
            n == contract.functions@.len(),
            i <= n,
            js_abi_wrappers(contract.functions@.take(i as int), pvl@, *ir) == Ok::<Seq<char>, Seq<char>>(ws@),
            pv@ == ts_plugin_var(plugin_name@),
            pvl@ == lower_str(pv@),
            out@ == old(out)@,
        decreases n - i,
    {
        assert(contract.functions@.take(i + 1).drop_last() =~= contract.functions@.take(i as int));
        assert(contract.functions@.take(i + 1).last() == contract.functions@[i as int]);
        match push_abi_wrapper(&mut ws, pvl.as_str(), i, &contract.functions[i], ir) {
            Ok(_) => {},
            Err(e) => {
                proof {
                    lemma_abi_wrappers_err(contract.functions@, i + 1, pvl@, *ir);
                }
                return Err(e);
            },
        }
        i = i + 1;
    }
    assert(contract.functions@.take(n as int) =~= contract.functions@);
    let mut buf: String = String::new();
    push_plugin_head(&mut buf, plugin_name, pv.as_str(), contract);
    buf.append(ws.as_str());
    push_plugin_tail(&mut buf, plugin_name, pv.as_str(), pvl.as_str(), contract);
    out.append(buf.as_str());
    Ok(())
}

/// The name a type reference names, as a one-element list (empty otherwise).
pub open spec fn ud_name(ty: ResolvedTypeRef) -> Seq<Seq<char>> {
    match ty {
        ResolvedTypeRef::UserDefined(n) => seq![n@],
        _ => Seq::<Seq<char>>::empty(),
    }
}

/// The user type names among the parameter types, in order.
pub open spec fn js_param_type_names(params: Seq<ResolvedParam>) -> Seq<Seq<char>>
    decreases params.len(),
{
    if params.len() == 0 {
        Seq::<Seq<char>>::empty()
    } else {
        js_param_type_names(params.drop_last()) + ud_name(params.last().ty)
    }
}

/// The user type name of a return type, if it names one.
pub open spec fn js_ret_type_names(ret: Option<ResolvedTypeRef>) -> Seq<Seq<char>> {
    match ret {
        Some(t) => ud_name(t),
        None => Seq::<Seq<char>>::empty(),
    }
}

/// The user type names of every function's parameters, then its return.
pub open spec fn js_func_type_names(funcs: Seq<ResolvedFunction>) -> Seq<Seq<char>>
    decreases funcs.len(),
{
    if funcs.len() == 0 {
        Seq::<Seq<char>>::empty()
    } else {
        let f = funcs.last();
        js_func_type_names(funcs.drop_last()) + js_param_type_names(f.params@) + js_ret_type_names(f.returns)
    }
}

/// The user type names of the contracts a plugin implements.
pub open spec fn js_impls_type_names(impls: Seq<String>, contracts: Seq<ResolvedContract>) -> Seq<Seq<char>>
    decreases impls.len(),
{
    if impls.len() == 0 {
        Seq::<Seq<char>>::empty()
    } else {
        js_impls_type_names(impls.drop_last(), contracts) + match find_impl(contracts, impls.last()@) {
            Some(c) => js_func_type_names(c.functions@),
            None => Seq::<Seq<char>>::empty(),
        }
    }
}

/// The user type names of every plugin's implemented contracts.
pub open spec fn js_plugins_type_names(plugins: Seq<crate::ir::ResolvedPlugin>, contracts: Seq<ResolvedContract>) -> Seq<Seq<char>>
    decreases plugins.len(),
{
    if plugins.len() == 0 {
        Seq::<Seq<char>>::empty()
    } else {
        js_plugins_type_names(plugins.drop_last(), contracts) + js_impls_type_names(plugins.last().implements@, contracts)
    }
}

/// The type names `guest/contracts.ts` imports: sorted, each once.
pub open spec fn js_type_imports(ir: ValidatedIr) -> Seq<Seq<char>> {
    sort_unique(js_plugins_type_names(bundle_plugins(ir), ir.contracts@))
}

/// Names joined with `", "`.
pub open spec fn join_names(xs: Seq<Seq<char>>) -> Seq<char>
    decreases xs.len(),
{
    if xs.len() == 0 {
        Seq::<char>::empty()
    } else if xs.len() == 1 {
        xs[0]
    } else {
        join_names(xs.drop_last()) + ", "@ + xs.last()
    }
}

/// The type import of `guest/contracts.ts`.
pub open spec fn js_import_line(names: Seq<Seq<char>>) -> Seq<char> {
    if names.len() == 0 {
        "import type { } from './types';\n\n"@
    } else {
        "import type { "@ + join_names(names) + " } from './types';\n\n"@
    }
}

fn push_names(v: &mut Vec<String>, ty: &ResolvedTypeRef)
    ensures
        views(final(v)@) == views(old(v)@) + ud_name(*ty),
{
    let ghost v0 = views(v@);
    match ty {
        ResolvedTypeRef::UserDefined(n) => {
            v.push(n.clone());
        },
        _ => {},
    }
    assert(views(v@) =~= v0 + ud_name(*ty));
}

fn collect_func_type_names(v: &mut Vec<String>, funcs: &Vec<ResolvedFunction>)
    ensures
        views(final(v)@) == views(old(v)@) + js_func_type_names(funcs@),
{
    let ghost v0 = views(v@);
    let n: usize = funcs.len();
    let mut i: usize = 0;
    while i < n
        invariant
            n == funcs@.len(),
            i <= n,
            views(v@) == v0 + js_func_type_names(funcs@.take(i as int)),
        decreases n - i,
    {
        let f: &ResolvedFunction = &funcs[i];
        let ghost s1 = views(v@);
        let np: usize = f.params.len();
        let mut j: usize = 0;
        while j < np
            invariant
                np == f.params@.len(),
                j <= np,
                views(v@) == s1 + js_param_type_names(f.params@.take(j as int)),
            decreases np - j,
        {
            push_names(v, &f.params[j].ty);
            assert(f.params@.take(j + 1).drop_last() =~= f.params@.take(j as int));
            j = j + 1;
        }
        assert(f.params@.take(np as int) =~= f.params@);
        let ghost s2 = views(v@);
        match &f.returns {
            Some(t) => push_names(v, t),
            None => {},
        }
        proof {
            assert(funcs@.take(i + 1).drop_last() =~= funcs@.take(i as int));
            assert(funcs@.take(i + 1).last() == funcs@[i as int]);
            assert(views(v@) =~= s2 + js_ret_type_names(f.returns));
            assert(views(v@) =~= v0 + js_func_type_names(funcs@.take(i + 1)));
        }
        i = i + 1;
    }
    assert(funcs@.take(n as int) =~= funcs@);
}

fn collect_plugins_type_names(v: &mut Vec<String>, plugins: &Vec<crate::ir::ResolvedPlugin>, contracts: &Vec<ResolvedContract>)
    ensures
        views(final(v)@) == views(old(v)@) + js_plugins_type_names(plugins@, contracts@),
{
    let ghost v0 = views(v@);
    let np: usize = plugins.len();
    let mut i: usize = 0;
    while i < np
        invariant
            np == plugins@.len(),
            i <= np,
            views(v@) == v0 + js_plugins_type_names(plugins@.take(i as int), contracts@),
        decreases np - i,
    {
        let p: &crate::ir::ResolvedPlugin = &plugins[i];
        let ghost s1 = views(v@);
        let ni: usize = p.implements.len();
        let mut j: usize = 0;
        while j < ni
            invariant
                ni == p.implements@.len(),
                j <= ni,
                views(v@) == s1 + js_impls_type_names(p.implements@.take(j as int), contracts@),
            decreases ni - j,
        {
            let ghost s2 = views(v@);
            match find_impl_contract(contracts, p.implements[j].as_str()) {
                Some(c) => collect_func_type_names(v, &c.functions),
                None => {},
            }
            proof {
                assert(p.implements@.take(j + 1).drop_last() =~= p.implements@.take(j as int));
                assert(p.implements@.take(j + 1).last() == p.implements@[j as int]);
                assert(views(v@) =~= s1 + js_impls_type_names(p.implements@.take(j + 1), contracts@));
            }
            j = j + 1;
        }
        proof {
            assert(p.implements@.take(ni as int) =~= p.implements@);
            assert(plugins@.take(i + 1).drop_last() =~= plugins@.take(i as int));
            assert(plugins@.take(i + 1).last() == plugins@[i as int]);
            assert(views(v@) =~= v0 + js_plugins_type_names(plugins@.take(i + 1), contracts@));
        }
        i = i + 1;
    }
    assert(plugins@.take(np as int) =~= plugins@);
}

fn push_import_line(out: &mut String, names: &Vec<String>)
    ensures
        final(out)@ == old(out)@ + js_import_line(views(names@)),
{
    let ghost o0 = out@;
    let n: usize = names.len();
    if n == 0 {
        out.append("import type { } from './types';\n\n");
        return;
    }
    out.append("import type { ");
    let ghost o1 = out@;
    let mut i: usize = 0;
    while i < n
        invariant
            n == names@.len(),
            i <= n,
            out@ == o1 + join_names(views(names@).take(i as int)),
        decreases n - i,
    {
        if i > 0 {
            out.append(", ");
        }
        out.append(names[i].as_str());
        proof {
            assert(views(names@).take(i + 1).drop_last() =~= views(names@).take(i as int));
            assert(views(names@).take(i + 1).last() == names@[i as int]@);
            if i == 0 {
                assert(join_names(views(names@).take(1)) == views(names@).take(1)[0]);
                assert(join_names(views(names@).take(0)) =~= Seq::<char>::empty());
            }
        }
        i = i + 1;
    }
    assert(views(names@).take(n as int) =~= views(names@));
    out.append(" } from './types';\n\n");
}

/// The `DispatchType` object of `guest/contracts.ts`.
pub const JS_DISPATCH_TYPE: &'static str = "/** Dispatch mechanism type — determines how function calls are routed. */\nconst DispatchType = Object.freeze({\n    Native: 0,\n    VirtualMachine: 1,\n} as const);\n\n";

/// The interfaces of the contracts one plugin implements, in order.
pub open spec fn js_impls_render(pname: Seq<char>, impls: Seq<String>, contracts: Seq<ResolvedContract>, ir: ValidatedIr) -> Result<
    Seq<char>,
    Seq<char>,
>
    decreases impls.len(),
{
    if impls.len() == 0 {
        Ok(Seq::<char>::empty())
    } else {
        match js_impls_render(pname, impls.drop_last(), contracts, ir) {
            Err(e) => Err(e),
            Ok(p) => match find_impl(contracts, impls.last()@) {
                Some(c) => match js_plugin_interface(pname, c, ir) {
                    Err(e) => Err(e),
                    Ok(t) => Ok(p + t),
                },
                None => Ok(p),
            },
        }
    }
}

proof fn lemma_impls_render_err(pname: Seq<char>, impls: Seq<String>, k: int, contracts: Seq<ResolvedContract>, ir: ValidatedIr)
    requires
        0 <= k <= impls.len(),
        js_impls_render(pname, impls.take(k), contracts, ir) is Err,
    ensures
        js_impls_render(pname, impls, contracts, ir) == js_impls_render(pname, impls.take(k), contracts, ir),
    decreases impls.len(),
{
    if k == impls.len() {
        assert(impls.take(k) =~= impls);
    } else {
        assert(impls.drop_last().take(k) =~= impls.take(k));
        lemma_impls_render_err(pname, impls.drop_last(), k, contracts, ir);
    }
}

/// The interfaces of every plugin of the bundle, in order.
pub open spec fn js_plugins_render(plugins: Seq<crate::ir::ResolvedPlugin>, contracts: Seq<ResolvedContract>, ir: ValidatedIr) -> Result<
    Seq<char>,
    Seq<char>,
>
    decreases plugins.len(),
{
    if plugins.len() == 0 {
        Ok(Seq::<char>::empty())
    } else {
        match js_plugins_render(plugins.drop_last(), contracts, ir) {
            Err(e) => Err(e),
            Ok(p) => match js_impls_render(plugins.last().name@, plugins.last().implements@, contracts, ir) {
                Err(e) => Err(e),
                Ok(t) => Ok(p + t),
            },
        }
    }
}

proof fn lemma_plugins_render_err(plugins: Seq<crate::ir::ResolvedPlugin>, k: int, contracts: Seq<ResolvedContract>, ir: ValidatedIr)
    requires
        0 <= k <= plugins.len(),
        js_plugins_render(plugins.take(k), contracts, ir) is Err,
    ensures
        js_plugins_render(plugins, contracts, ir) == js_plugins_render(plugins.take(k), contracts, ir),
    decreases plugins.len(),
{
    if k == plugins.len() {
        assert(plugins.take(k) =~= plugins);
    } else {
        assert(plugins.drop_last().take(k) =~= plugins.take(k));
        lemma_plugins_render_err(plugins.drop_last(), k, contracts, ir);
    }
}

fn render_impls(out: &mut String, p: &crate::ir::ResolvedPlugin, ir: &ValidatedIr) -> (r: Result<(), crate::error::CodegenError>)
    ensures
        match r {
            Ok(_) => js_impls_render(p.name@, p.implements@, ir.contracts@, *ir) matches Ok(t) && final(out)@ == old(out)@ + t,
            Err(e) => js_impls_render(p.name@, p.implements@, ir.contracts@, *ir) matches Err(n) && unsupported_is(e, n),
        },
{
    let mut acc: String = String::new();
    let ni: usize = p.implements.len();
    let mut j: usize = 0;
    while j < ni
        invariant
            ni == p.implements@.len(),
            j <= ni,
            js_impls_render(p.name@, p.implements@.take(j as int), ir.contracts@, *ir) == Ok::<Seq<char>, Seq<char>>(acc@),
        decreases ni - j,
    {
        assert(p.implements@.take(j + 1).drop_last() =~= p.implements@.take(j as int));
        assert(p.implements@.take(j + 1).last() == p.implements@[j as int]);
        match find_impl_contract(&ir.contracts, p.implements[j].as_str()) {
            Some(c) => {
                match render_plugin_interface_quickjs(&mut acc, p.name.as_str(), c, ir) {
                    Ok(_) => {},
                    Err(e) => {
                        proof {
                            lemma_impls_render_err(p.name@, p.implements@, j + 1, ir.contracts@, *ir);
                        }
                        return Err(e);
                    },
                }
            },
            None => {},
        }
        j = j + 1;
    }
    assert(p.implements@.take(ni as int) =~= p.implements@);
    out.append(acc.as_str());
    Ok(())
}

fn render_plugins(out: &mut String, plugins: &Vec<crate::ir::ResolvedPlugin>, ir: &ValidatedIr) -> (r: Result<
    (),
    crate::error::CodegenError,
>)
    ensures
        match r {
            Ok(_) => js_plugins_render(plugins@, ir.contracts@, *ir) matches Ok(t) && final(out)@ == old(out)@ + t,
            Err(e) => js_plugins_render(plugins@, ir.contracts@, *ir) matches Err(n) && unsupported_is(e, n),
        },
{
    let mut all: String = String::new();
    let np: usize = plugins.len();
    let mut i: usize = 0;
    while i < np
        invariant
            np == plugins@.len(),
            i <= np,
            js_plugins_render(plugins@.take(i as int), ir.contracts@, *ir) == Ok::<Seq<char>, Seq<char>>(all@),
        decreases np - i,
    {
        assert(plugins@.take(i + 1).drop_last() =~= plugins@.take(i as int));
        assert(plugins@.take(i + 1).last() == plugins@[i as int]);
        match render_impls(&mut all, &plugins[i], ir) {
            Ok(_) => {},
            Err(e) => {
                proof {
                    lemma_plugins_render_err(plugins@, i + 1, ir.contracts@, *ir);
                }
                return Err(e);
            },
        }
        i = i + 1;
    }
    assert(plugins@.take(np as int) =~= plugins@);
    out.append(all.as_str());
    Ok(())
}

/// `guest/contracts.ts`: the type import, the dispatch type, the UTF-8
/// helper and every plugin's interface; `Err` names a type a wrapper cannot
/// marshal.
#[verifier::opaque]
pub open spec fn js_contracts_ts(ir: ValidatedIr) -> Result<Seq<char>, Seq<char>> {
    match js_plugins_render(bundle_plugins(ir), ir.contracts@, ir) {
        Err(e) => Err(e),
        Ok(r) => Ok(JS_HEADER@ + js_import_line(js_type_imports(ir)) + JS_DISPATCH_TYPE@ + TS_UTF8_ENCODER@ + r),
    }
}

/// Generate `guest/contracts.ts`.
pub fn generate_contracts_ts(ir: &ValidatedIr) -> (r: Result<String, crate::error::CodegenError>)
    ensures
        match r {
            Ok(s) => js_contracts_ts(*ir) == Ok::<Seq<char>, Seq<char>>(s@),
            Err(e) => js_contracts_ts(*ir) matches Err(n) && unsupported_is(e, n),
        },
{
    let mut names: Vec<String> = Vec::new();
    match &ir.bundle {
        Some(b) => collect_plugins_type_names(&mut names, &b.plugins, &ir.contracts),
        None => {},
    }
    assert(views(names@) =~= js_plugins_type_names(bundle_plugins(*ir), ir.contracts@));
    let sorted: Vec<String> = sort_dedup(names);
    let mut out: String = String::new();
    out.append(JS_HEADER);
    push_import_line(&mut out, &sorted);
    out.append(JS_DISPATCH_TYPE);
    emit_ts_utf8_encoder_helper(&mut out);
    let ghost o1 = out@;
    match &ir.bundle {
        Some(b) => {
            match render_plugins(&mut out, &b.plugins, ir) {
                Ok(_) => {},
                Err(e) => {
                    proof {
                        reveal(js_contracts_ts);
                    }
                    return Err(e);
                },
            }
        },
        None => {
            assert(out@ =~= o1 + Seq::<char>::empty());
        },
    }
    proof {
        reveal(js_contracts_ts);
    }
    Ok(out)
}

// ─── Guest-side callers: argument packing ───────────────────────────────────

/// `        polyplug.writeU32(<ap> + <off>, <arg>);` (the offset always written).
pub open spec fn w32_at(ap: Seq<char>, off: nat, arg: Seq<char>) -> Seq<char> {
    "        polyplug.writeU32("@ + ap + " + "@ + dec_digits(off) + ", "@ + arg + ");\n"@
}

fn push_w32_at(out: &mut String, ap: &str, off: usize, delta: u8, arg: &str)
    ensures
        final(out)@ == old(out)@ + w32_at(ap@, off as nat + delta as nat, arg@),
{
    out.append("        polyplug.writeU32(");
    out.append(ap);
    out.append(" + ");
    crate::text::push_u128(out, off as u128 + delta as u128);
    out.append(", ");
    out.append(arg);
    out.append(");\n");
}

/// `acc` followed by the UTF-8 encoding of a string value into a
/// caller-allocated data buffer whose temporaries are named after `n`.
pub open spec fn ts_sv_data(acc: Seq<char>, value: Seq<char>, n: Seq<char>) -> Seq<char> {
    acc + "        const _"@ + n + "Bytes = _ppEncodeUtf8("@ + value + ");\n"@ + "        const _"@ + n + "DataBuf = _callerAlloc(_"@ + n
        + "Bytes.length > 0 ? _"@ + n + "Bytes.length : 1);\n"@ + "        const _"@ + n + "DataPtr = _"@ + n + "DataBuf[0] + _"@ + n
        + "DataBuf[1] * 4294967296;\n"@ + "        for (let _i = 0; _i < _"@ + n + "Bytes.length; _i++) { polyplug.writeByte(_"@ + n
        + "DataPtr + _i, _"@ + n + "Bytes[_i]); }\n"@
}

fn push_sv_data(out: &mut String, value: &str, n: &str)
    ensures
        final(out)@ == ts_sv_data(old(out)@, value@, n@),
{
    out.append("        const _");
    out.append(n);
    out.append("Bytes = _ppEncodeUtf8(");
    out.append(value);
    out.append(");\n");
    out.append("        const _");
    out.append(n);
    out.append("DataBuf = _callerAlloc(_");
    out.append(n);
    out.append("Bytes.length > 0 ? _");
    out.append(n);
    out.append("Bytes.length : 1);\n");
    out.append("        const _");
    out.append(n);
    out.append("DataPtr = _");
    out.append(n);
    out.append("DataBuf[0] + _");
    out.append(n);
    out.append("DataBuf[1] * 4294967296;\n");
    out.append("        for (let _i = 0; _i < _");
    out.append(n);
    out.append("Bytes.length; _i++) { polyplug.writeByte(_");
    out.append(n);
    out.append("DataPtr + _i, _");
    out.append(n);
    out.append("Bytes[_i]); }\n");
}

/// `acc` followed by the copy of a byte array value into a caller-allocated
/// data buffer whose temporaries are named after `n`.
pub open spec fn ts_buf_data(acc: Seq<char>, value: Seq<char>, n: Seq<char>) -> Seq<char> {
    acc + "        const _"@ + n + "DataBuf = _callerAlloc("@ + value + ".length > 0 ? "@ + value + ".length : 1);\n"@ + "        const _"@
        + n + "DataPtr = _"@ + n + "DataBuf[0] + _"@ + n + "DataBuf[1] * 4294967296;\n"@ + "        for (let _i = 0; _i < "@ + value
        + ".length; _i++) { polyplug.writeByte(_"@ + n + "DataPtr + _i, "@ + value + "[_i]); }\n"@
}

fn push_buf_data(out: &mut String, value: &str, n: &str)
    ensures
        final(out)@ == ts_buf_data(old(out)@, value@, n@),
{
    out.append("        const _");
    out.append(n);
    out.append("DataBuf = _callerAlloc(");
    out.append(value);
    out.append(".length > 0 ? ");
    out.append(value);
    out.append(".length : 1);\n");
    out.append("        const _");
    out.append(n);
    out.append("DataPtr = _");
    out.append(n);
    out.append("DataBuf[0] + _");
    out.append(n);
    out.append("DataBuf[1] * 4294967296;\n");
    out.append("        for (let _i = 0; _i < ");
    out.append(value);
    out.append(".length; _i++) { polyplug.writeByte(_");
    out.append(n);
    out.append("DataPtr + _i, ");
    out.append(value);
    out.append("[_i]); }\n");
}

/// `acc` followed by a string value encoded into a fresh buffer and its
/// StringView written at `ap + off`.
pub open spec fn ts_sv_write(acc: Seq<char>, value: Seq<char>, n: Seq<char>, ap: Seq<char>, off: nat) -> Seq<char> {
    ts_sv_data(acc, value, n) + w32_at(ap, off, "_"@ + n + "DataBuf[0]"@) + w32_at(ap, off + 4, "_"@ + n + "DataBuf[1]"@) + w32_at(
        ap,
        off + 8,
        "_"@ + n + "Bytes.length"@,
    ) + w32_at(ap, off + 12, "0"@)
}

/// Emit a StringView into the args pack at `args_ptr + offset` from the JS
/// string expression `value`, naming the temporaries after `local`.
pub fn emit_ts_write_string_view(out: &mut String, value: &str, local: &str, args_ptr: &str, offset: usize)
    ensures
        final(out)@ == ts_sv_write(old(out)@, value@, local@, args_ptr@, offset as nat),
{
    push_sv_data(out, value, local);
    push_w32_at(out, args_ptr, offset, 0, cat3("_", local, "DataBuf[0]").as_str());
    push_w32_at(out, args_ptr, offset, 4, cat3("_", local, "DataBuf[1]").as_str());
    push_w32_at(out, args_ptr, offset, 8, cat3("_", local, "Bytes.length").as_str());
    push_w32_at(out, args_ptr, offset, 12, "0");
}

/// `acc` followed by a byte array copied into a fresh buffer and its Buffer
/// written at `ap + off`.
pub open spec fn ts_buf_write(acc: Seq<char>, value: Seq<char>, n: Seq<char>, ap: Seq<char>, off: nat) -> Seq<char> {
    ts_buf_data(acc, value, n) + w32_at(ap, off, "_"@ + n + "DataBuf[0]"@) + w32_at(ap, off + 4, "_"@ + n + "DataBuf[1]"@) + w32_at(
        ap,
        off + 8,
        value + ".length"@,
    ) + w32_at(ap, off + 12, "0"@) + w32_at(ap, off + 16, value + ".length"@) + w32_at(ap, off + 20, "0"@)
}

/// Emit a Buffer into the args pack at `args_ptr + offset` from the JS byte
/// array expression `value`, naming the temporaries after `local`.
pub fn emit_ts_write_buffer(out: &mut String, value: &str, local: &str, args_ptr: &str, offset: usize)
    ensures
        final(out)@ == ts_buf_write(old(out)@, value@, local@, args_ptr@, offset as nat),
{
    push_buf_data(out, value, local);
    push_w32_at(out, args_ptr, offset, 0, cat3("_", local, "DataBuf[0]").as_str());
    push_w32_at(out, args_ptr, offset, 4, cat3("_", local, "DataBuf[1]").as_str());
    push_w32_at(out, args_ptr, offset, 8, cat2(value, ".length").as_str());
    push_w32_at(out, args_ptr, offset, 12, "0");
    push_w32_at(out, args_ptr, offset, 16, cat2(value, ".length").as_str());
    push_w32_at(out, args_ptr, offset, 20, "0");
}

/// The next temporary index (the counter wraps at `u32`).
pub open spec fn next_idx(k: nat) -> nat {
    (k + 1) % 4294967296
}

/// The packing of the JS value `v` of `ty` into the args pack at `ap + off`:
/// StringView and Buffer leaves are copied into fresh buffers named after the
/// counter `k`, structs recurse field by field, every other value is written
/// as `js_write` writes it. The result holds the text and the next counter.
pub open spec fn js_pack(ty: ResolvedTypeRef, ap: Seq<char>, off: nat, v: Seq<char>, ir: ValidatedIr, k: nat, fuel: nat) -> Result<
    (Seq<char>, nat),
    Seq<char>,
>
    decreases fuel, 0nat,
{
    match ty {
        ResolvedTypeRef::AbiType(AbiBuiltin::StringView) => Ok(
            (ts_sv_write(Seq::<char>::empty(), v, "sv"@ + dec_digits(k), ap, off), next_idx(k)),
        ),
        ResolvedTypeRef::AbiType(AbiBuiltin::Buffer) => Ok(
            (ts_buf_write(Seq::<char>::empty(), v, "buf"@ + dec_digits(k), ap, off), next_idx(k)),
        ),
        ResolvedTypeRef::UserDefined(name) => match find_type(ir.types@, name@) {
            Some(s) => if fuel == 0 {
                Err(name@)
            } else {
                match js_pack_fields(s.fields@, ap, off, v, name@, ir, k, (fuel - 1) as nat) {
                    Err(e) => Err(e),
                    Ok(r) => Ok((r.0, r.2)),
                }
            },
            None => match js_write(ty, "        "@, ap, off, v, ir, layout_fuel(ir)) {
                Err(e) => Err(e),
                Ok(t) => Ok((t, k)),
            },
        },
        _ => match js_write(ty, "        "@, ap, off, v, ir, layout_fuel(ir)) {
            Err(e) => Err(e),
            Ok(t) => Ok((t, k)),
        },
    }
}

/// The packing of every field `v.<name>` at its C-layout offset from `off`;
/// the text, the offset past the last field and the next counter.
pub open spec fn js_pack_fields(
    fs: Seq<ResolvedField>,
    ap: Seq<char>,
    off: nat,
    v: Seq<char>,
    sname: Seq<char>,
    ir: ValidatedIr,
    k: nat,
    fuel: nat,
) -> Result<(Seq<char>, nat, nat), Seq<char>>
    decreases fuel, fs.len() + 1,
{
    if fs.len() == 0 {
        Ok((Seq::<char>::empty(), off, k))
    } else {
        match js_pack_fields(fs.drop_last(), ap, off, v, sname, ir, k, fuel) {
            Err(e) => Err(e),
            Ok(prev) => match js_align(fs.last().ty, ir.types@, ir.enums@, layout_fuel(ir)) {
                Err(e) => Err(e),
                Ok(a) => {
                    let o = align_to(prev.1, a);
                    if !fits(o) {
                        Err(sname)
                    } else {
                        match js_pack(fs.last().ty, ap, o, v + "."@ + fs.last().name@, ir, prev.2, fuel) {
                            Err(e) => Err(e),
                            Ok(x) => match js_size(fs.last().ty, ir.types@, ir.enums@, layout_fuel(ir)) {
                                Err(e) => Err(e),
                                Ok(sz) => if fits(o + sz) {
                                    Ok((prev.0 + x.0, o + sz, x.1))
                                } else {
                                    Err(sname)
                                },
                            },
                        }
                    }
                },
            },
        }
    }
}

proof fn lemma_pack_fields_err(
    fs: Seq<ResolvedField>,
    j: int,
    ap: Seq<char>,
    off: nat,
    v: Seq<char>,
    sname: Seq<char>,
    ir: ValidatedIr,
    k: nat,
    fuel: nat,
)
    requires
        0 <= j <= fs.len(),
        js_pack_fields(fs.take(j), ap, off, v, sname, ir, k, fuel) is Err,
    ensures
        js_pack_fields(fs, ap, off, v, sname, ir, k, fuel) == js_pack_fields(fs.take(j), ap, off, v, sname, ir, k, fuel),
    decreases fs.len(),
{
    if j == fs.len() {
        assert(fs.take(j) =~= fs);
    } else {
        assert(fs.drop_last().take(j) =~= fs.take(j));
        lemma_pack_fields_err(fs.drop_last(), j, ap, off, v, sname, ir, k, fuel);
    }
}

#[verifier::rlimit(60)]
fn pack_fuel(
    out: &mut String,
    ty: &ResolvedTypeRef,
    args_ptr: &str,
    offset: usize,
    value: &str,
    ir: &ValidatedIr,
    sv_idx: &mut u32,
    fuel: usize,
) -> (r: Result<(), crate::error::CodegenError>)
    ensures
        match r {
            Ok(_) => js_pack(*ty, args_ptr@, offset as nat, value@, *ir, *old(sv_idx) as nat, fuel as nat) matches Ok(p)
                && final(out)@ == old(out)@ + p.0 && *final(sv_idx) as nat == p.1,
            Err(e) => js_pack(*ty, args_ptr@, offset as nat, value@, *ir, *old(sv_idx) as nat, fuel as nat) matches Err(n)
                && unsupported_is(e, n),
        },
    decreases fuel, 1nat,
{
    match ty {
        ResolvedTypeRef::AbiType(AbiBuiltin::StringView) => {
            let mut local: String = "sv".to_owned();
            push_u32(&mut local, *sv_idx);
            *sv_idx = sv_idx.wrapping_add(1);
            let mut t: String = String::new();
            emit_ts_write_string_view(&mut t, value, local.as_str(), args_ptr, offset);
            out.append(t.as_str());
            return Ok(());
        },
        ResolvedTypeRef::AbiType(AbiBuiltin::Buffer) => {
            let mut local: String = "buf".to_owned();
            push_u32(&mut local, *sv_idx);
            *sv_idx = sv_idx.wrapping_add(1);
            let mut t: String = String::new();
            emit_ts_write_buffer(&mut t, value, local.as_str(), args_ptr, offset);
            out.append(t.as_str());
            return Ok(());
        },
        _ => {},
    }
    match js_struct_for_type(ty, ir.types.as_slice()) {
        Some(s) => {
            let name: &String = match ty {
                ResolvedTypeRef::UserDefined(n) => n,
                _ => {
                    return Err(unsupported("struct"));
                },
            };
            if fuel == 0 {
                return Err(unsupported(name.as_str()));
            }
            let t: String = match pack_struct_fields(s, name.as_str(), args_ptr, offset, value, ir, sv_idx, fuel - 1) {
                Ok(t) => t,
                Err(e) => {
                    return Err(e);
                },
            };
            out.append(t.as_str());
            Ok(())
        },
        None => emit_js_write_value(out, "        ", ty, args_ptr, offset, value, ir),
    }
}

fn pack_struct_fields(
    s: &ResolvedType,
    sname: &str,
    args_ptr: &str,
    offset: usize,
    value: &str,
    ir: &ValidatedIr,
    sv_idx: &mut u32,
    fuel: usize,
) -> (r: Result<String, crate::error::CodegenError>)
    ensures
        match r {
            Ok(t) => js_pack_fields(s.fields@, args_ptr@, offset as nat, value@, sname@, *ir, *old(sv_idx) as nat, fuel as nat) matches Ok(
                p,
            ) && t@ == p.0 && *final(sv_idx) as nat == p.2,
            Err(e) => js_pack_fields(s.fields@, args_ptr@, offset as nat, value@, sname@, *ir, *old(sv_idx) as nat, fuel as nat) matches Err(
                n,
            ) && unsupported_is(e, n),
        },
    decreases fuel, 2nat,
{
    let ghost fs = s.fields@;
    let ghost k0: nat = *sv_idx as nat;
    let mut acc: String = String::new();
    let mut field_off: usize = offset;
    let n: usize = s.fields.len();
    let mut i: usize = 0;
    while i < n
        invariant
            n == fs.len(),
            fs == s.fields@,
            i <= n,
            k0 == *old(sv_idx) as nat,
            js_pack_fields(fs.take(i as int), args_ptr@, offset as nat, value@, sname@, *ir, k0, fuel as nat) == Ok::<
                (Seq<char>, nat, nat),
                Seq<char>,
            >((acc@, field_off as nat, *sv_idx as nat)),
        decreases n - i,
    {
        assert(fs.take(i + 1).drop_last() =~= fs.take(i as int));
        assert(fs.take(i + 1).last() == s.fields@[i as int]);
        let fty: &ResolvedTypeRef = &s.fields[i].ty;
        let a: usize = match js_c_align(fty, ir) {
            Ok(a) => a,
            Err(e) => {
                proof {
                    lemma_pack_fields_err(fs, i + 1, args_ptr@, offset as nat, value@, sname@, *ir, k0, fuel as nat);
                }
                return Err(e);
            },
        };
        let o: usize = match align_up_checked(field_off, a) {
            Some(o) => o,
            None => {
                proof {
                    lemma_pack_fields_err(fs, i + 1, args_ptr@, offset as nat, value@, sname@, *ir, k0, fuel as nat);
                }
                return Err(unsupported(sname));
            },
        };
        let fv: String = cat3(value, ".", s.fields[i].name.as_str());
        match pack_fuel(&mut acc, fty, args_ptr, o, fv.as_str(), ir, sv_idx, fuel) {
            Ok(_) => {},
            Err(e) => {
                proof {
                    lemma_pack_fields_err(fs, i + 1, args_ptr@, offset as nat, value@, sname@, *ir, k0, fuel as nat);
                }
                return Err(e);
            },
        }
        let sz: usize = match js_c_size(fty, ir) {
            Ok(sz) => sz,
            Err(e) => {
                proof {
                    lemma_pack_fields_err(fs, i + 1, args_ptr@, offset as nat, value@, sname@, *ir, k0, fuel as nat);
                }
                return Err(e);
            },
        };
        field_off = match o.checked_add(sz) {
            Some(w) => w,
            None => {
                proof {
                    lemma_pack_fields_err(fs, i + 1, args_ptr@, offset as nat, value@, sname@, *ir, k0, fuel as nat);
                }
                return Err(unsupported(sname));
            },
        };
        i = i + 1;
    }
    assert(fs.take(n as int) =~= fs);
    Ok(acc)
}

/// Pack `value` (a JS expression of `ty`'s ergonomic shape) into the caller
/// args buffer at `args_ptr + offset`; `sv_idx` numbers the temporaries of
/// StringView and Buffer leaves.
pub fn emit_ts_caller_pack_value(
    out: &mut String,
    ty: &ResolvedTypeRef,
    args_ptr: &str,
    offset: usize,
    value: &str,
    ir: &ValidatedIr,
    sv_idx: &mut u32,
) -> (r: Result<(), crate::error::CodegenError>)
    ensures
        match r {
            Ok(_) => js_pack(*ty, args_ptr@, offset as nat, value@, *ir, *old(sv_idx) as nat, layout_fuel(*ir)) matches Ok(p)
                && final(out)@ == old(out)@ + p.0 && *final(sv_idx) as nat == p.1,
            Err(e) => js_pack(*ty, args_ptr@, offset as nat, value@, *ir, *old(sv_idx) as nat, layout_fuel(*ir)) matches Err(n)
                && unsupported_is(e, n),
        },
{
    pack_fuel(out, ty, args_ptr, offset, value, ir, sv_idx, ir.types.len())
}

/// The computation of `argsPtr` from the allocated args buffer.
pub const TS_ARGS_PTR: &'static str = "        const argsPtr = _argsBuf[0] + _argsBuf[1] * 4294967296;\n";

/// An 8-byte args buffer.
pub const TS_ALLOC8: &'static str = "        const _argsBuf = _callerAlloc(8);\n";

/// The args setup of a call without arguments.
pub const TS_NO_ARGS: &'static str = "        const argsPtr = 0;\n";

/// The args setup of a single parameter: the bare value in its own buffer.
#[verifier::opaque]
pub open spec fn ts_single_arg(p: ResolvedParam, ir: ValidatedIr) -> Result<Seq<char>, Seq<char>> {
    let n = p.name@;
    match p.ty {
        ResolvedTypeRef::AbiType(AbiBuiltin::StringView) => Ok(
            ts_sv_data(Seq::<char>::empty(), n, n) + "        const _argsBuf = _callerAlloc(16);\n"@ + TS_ARGS_PTR@
                + "        polyplug.writeU32(argsPtr, _"@ + n + "DataBuf[0]);\n"@ + "        polyplug.writeU32(argsPtr + 4, _"@ + n
                + "DataBuf[1]);\n"@ + "        polyplug.writeU32(argsPtr + 8, _"@ + n + "Bytes.length);\n"@
                + "        polyplug.writeU32(argsPtr + 12, 0);\n"@,
        ),
        ResolvedTypeRef::AbiType(AbiBuiltin::Buffer) => Ok(
            ts_buf_data(Seq::<char>::empty(), n, n) + "        const _argsBuf = _callerAlloc(24);\n"@ + TS_ARGS_PTR@
                + "        polyplug.writeU32(argsPtr, _"@ + n + "DataBuf[0]);\n"@ + "        polyplug.writeU32(argsPtr + 4, _"@ + n
                + "DataBuf[1]);\n"@ + "        polyplug.writeU32(argsPtr + 8, "@ + n + ".length);\n"@
                + "        polyplug.writeU32(argsPtr + 12, 0);\n"@ + "        polyplug.writeU32(argsPtr + 16, "@ + n + ".length);\n"@
                + "        polyplug.writeU32(argsPtr + 20, 0);\n"@,
        ),
        ResolvedTypeRef::Primitive(pr) => Ok(
            TS_ALLOC8@ + TS_ARGS_PTR@ + match pr {
                PrimitiveType::U64 | PrimitiveType::I64 => "        polyplug.writeU32(argsPtr, "@ + n + ".lo);\n"@
                    + "        polyplug.writeU32(argsPtr + 4, "@ + n + ".hi);\n"@,
                PrimitiveType::F64 => "        polyplug.writeF64(argsPtr, "@ + n + ");\n"@,
                PrimitiveType::F32 => "        polyplug.writeF32(argsPtr, "@ + n + ");\n"@,
                _ => "        polyplug.writeU32(argsPtr, "@ + n + ");\n"@,
            },
        ),
        ResolvedTypeRef::AbiType(AbiBuiltin::Ptr) => Ok(
            TS_ALLOC8@ + TS_ARGS_PTR@ + "        polyplug.writeU32(argsPtr, "@ + n + ".lo);\n"@ + "        polyplug.writeU32(argsPtr + 4, "@
                + n + ".hi);\n"@,
        ),
        ResolvedTypeRef::UserDefined(nm) => match find_type(ir.types@, nm@) {
            Some(_) => match js_size(p.ty, ir.types@, ir.enums@, layout_fuel(ir)) {
                Err(e) => Err(e),
                Ok(size) => match js_pack(p.ty, "argsPtr"@, 0, n, ir, 0, layout_fuel(ir)) {
                    Err(e) => Err(e),
                    Ok(pk) => Ok("        const _argsBuf = _callerAlloc("@ + dec_digits(size) + ");\n"@ + TS_ARGS_PTR@ + pk.0),
                },
            },
            None => Ok(
                TS_ALLOC8@ + TS_ARGS_PTR@ + if find_enum(ir.enums@, nm@) matches Some(e) && e.repr == ReprType::U64 {
                    "        polyplug.writeU32(argsPtr, Number("@ + n + ") >>> 0);\n"@
                        + "        polyplug.writeU32(argsPtr + 4, Math.floor(Number("@ + n + ") / 4294967296));\n"@
                } else {
                    "        polyplug.writeU32(argsPtr, Number("@ + n + "));\n"@ + "        polyplug.writeU32(argsPtr + 4, 0);\n"@
                },
            ),
        },
        ResolvedTypeRef::AbiType(AbiBuiltin::Void) => Ok(TS_NO_ARGS@),
    }
}

#[verifier::rlimit(40)]
fn single_arg(p: &ResolvedParam, ir: &ValidatedIr) -> (r: Result<String, crate::error::CodegenError>)
    ensures
        match r {
            Ok(t) => ts_single_arg(*p, *ir) == Ok::<Seq<char>, Seq<char>>(t@),
            Err(e) => ts_single_arg(*p, *ir) matches Err(n) && unsupported_is(e, n),
        },
{
    reveal(ts_single_arg);
    let n: &str = p.name.as_str();
    let mut t: String = String::new();
    match &p.ty {
        ResolvedTypeRef::AbiType(AbiBuiltin::StringView) => {
            push_sv_data(&mut t, n, n);
            t.append("        const _argsBuf = _callerAlloc(16);\n");
            t.append(TS_ARGS_PTR);
            t.append("        polyplug.writeU32(argsPtr, _");
            t.append(n);
            t.append("DataBuf[0]);\n");
            t.append("        polyplug.writeU32(argsPtr + 4, _");
            t.append(n);
            t.append("DataBuf[1]);\n");
            t.append("        polyplug.writeU32(argsPtr + 8, _");
            t.append(n);
            t.append("Bytes.length);\n");
            t.append("        polyplug.writeU32(argsPtr + 12, 0);\n");
            Ok(t)
        },
        ResolvedTypeRef::AbiType(AbiBuiltin::Buffer) => {
            push_buf_data(&mut t, n, n);
            t.append("        const _argsBuf = _callerAlloc(24);\n");
            t.append(TS_ARGS_PTR);
            t.append("        polyplug.writeU32(argsPtr, _");
            t.append(n);
            t.append("DataBuf[0]);\n");
            t.append("        polyplug.writeU32(argsPtr + 4, _");
            t.append(n);
            t.append("DataBuf[1]);\n");
            t.append("        polyplug.writeU32(argsPtr + 8, ");
            t.append(n);
            t.append(".length);\n");
            t.append("        polyplug.writeU32(argsPtr + 12, 0);\n");
            t.append("        polyplug.writeU32(argsPtr + 16, ");
            t.append(n);
            t.append(".length);\n");
            t.append("        polyplug.writeU32(argsPtr + 20, 0);\n");
            Ok(t)
        },
        ResolvedTypeRef::Primitive(pr) => {
            t.append(TS_ALLOC8);
            t.append(TS_ARGS_PTR);
            let ghost t0 = t@;
            assert(t0 =~= TS_ALLOC8@ + TS_ARGS_PTR@);
            match pr {
                PrimitiveType::U64 | PrimitiveType::I64 => {
                    t.append("        polyplug.writeU32(argsPtr, ");
                    t.append(n);
                    t.append(".lo);\n");
                    t.append("        polyplug.writeU32(argsPtr + 4, ");
                    t.append(n);
                    t.append(".hi);\n");
                },
                PrimitiveType::F64 => {
                    t.append("        polyplug.writeF64(argsPtr, ");
                    t.append(n);
                    t.append(");\n");
                },
                PrimitiveType::F32 => {
                    t.append("        polyplug.writeF32(argsPtr, ");
                    t.append(n);
                    t.append(");\n");
                },
                _ => {
                    t.append("        polyplug.writeU32(argsPtr, ");
                    t.append(n);
                    t.append(");\n");
                },
            }
            assert(t@ =~= t0 + match *pr {
                PrimitiveType::U64 | PrimitiveType::I64 => "        polyplug.writeU32(argsPtr, "@ + n@ + ".lo);\n"@
                    + "        polyplug.writeU32(argsPtr + 4, "@ + n@ + ".hi);\n"@,
                PrimitiveType::F64 => "        polyplug.writeF64(argsPtr, "@ + n@ + ");\n"@,
                PrimitiveType::F32 => "        polyplug.writeF32(argsPtr, "@ + n@ + ");\n"@,
                _ => "        polyplug.writeU32(argsPtr, "@ + n@ + ");\n"@,
            });
            assert(t@ =~= TS_ALLOC8@ + TS_ARGS_PTR@ + (t@.subrange(t0.len() as int, t@.len() as int)));
            Ok(t)
        },
        ResolvedTypeRef::AbiType(AbiBuiltin::Ptr) => {
            t.append(TS_ALLOC8);
            t.append(TS_ARGS_PTR);
            assert(t@ =~= TS_ALLOC8@ + TS_ARGS_PTR@);
            t.append("        polyplug.writeU32(argsPtr, ");
            t.append(n);
            t.append(".lo);\n");
            t.append("        polyplug.writeU32(argsPtr + 4, ");
            t.append(n);
            t.append(".hi);\n");
            assert(t@ =~= TS_ALLOC8@ + TS_ARGS_PTR@ + "        polyplug.writeU32(argsPtr, "@ + n@ + ".lo);\n"@
                + "        polyplug.writeU32(argsPtr + 4, "@ + n@ + ".hi);\n"@);
            Ok(t)
        },
        ResolvedTypeRef::UserDefined(_) => {
            match js_struct_for_type(&p.ty, ir.types.as_slice()) {
                Some(_) => {
                    let size: usize = match js_c_size(&p.ty, ir) {
                        Ok(s) => s,
                        Err(e) => {
                            return Err(e);
                        },
                    };
                    t.append("        const _argsBuf = _callerAlloc(");
                    push_usize(&mut t, size);
                    t.append(");\n");
                    t.append(TS_ARGS_PTR);
                    assert(t@ =~= "        const _argsBuf = _callerAlloc("@ + dec_digits(size as nat) + ");\n"@ + TS_ARGS_PTR@);
                    let mut sv_idx: u32 = 0;
                    match emit_ts_caller_pack_value(&mut t, &p.ty, "argsPtr", 0, n, ir, &mut sv_idx) {
                        Ok(_) => {},
                        Err(e) => {
                            return Err(e);
                        },
                    }
                    Ok(t)
                },
                None => {
                    t.append(TS_ALLOC8);
                    t.append(TS_ARGS_PTR);
                    let ghost t0 = t@;
                    assert(t0 =~= TS_ALLOC8@ + TS_ARGS_PTR@);
                    let u64_repr: bool = match js_enum_for_type(&p.ty, ir.enums.as_slice()) {
                        Some(e) => matches!(e.repr, ReprType::U64),
                        None => false,
                    };
                    if u64_repr {
                        t.append("        polyplug.writeU32(argsPtr, Number(");
                        t.append(n);
                        t.append(") >>> 0);\n");
                        t.append("        polyplug.writeU32(argsPtr + 4, Math.floor(Number(");
                        t.append(n);
                        t.append(") / 4294967296));\n");
                        assert(t@ =~= t0 + ("        polyplug.writeU32(argsPtr, Number("@ + n@ + ") >>> 0);\n"@
                            + "        polyplug.writeU32(argsPtr + 4, Math.floor(Number("@ + n@ + ") / 4294967296));\n"@));
                    } else {
                        t.append("        polyplug.writeU32(argsPtr, Number(");
                        t.append(n);
                        t.append("));\n");
                        t.append("        polyplug.writeU32(argsPtr + 4, 0);\n");
                        assert(t@ =~= t0 + ("        polyplug.writeU32(argsPtr, Number("@ + n@ + "));\n"@
                            + "        polyplug.writeU32(argsPtr + 4, 0);\n"@));
                    }
                    Ok(t)
                },
            }
        },
        ResolvedTypeRef::AbiType(AbiBuiltin::Void) => {
            t.append(TS_NO_ARGS);
            assert(t@ =~= TS_NO_ARGS@);
            Ok(t)
        },
    }
}

/// The end of the C-layout args pack of the parameters and its largest slot
/// alignment; an overflow is reported under the function's name.
pub open spec fn ts_slot_totals(params: Seq<ResolvedParam>, fname: Seq<char>, ir: ValidatedIr) -> Result<(nat, nat), Seq<char>>
    decreases params.len(),
{
    if params.len() == 0 {
        Ok((0, 1))
    } else {
        match ts_slot_totals(params.drop_last(), fname, ir) {
            Err(e) => Err(e),
            Ok(prev) => match js_slot(params.last().ty, ir) {
                Err(e) => Err(e),
                Ok(sa) => {
                    let o = align_to(prev.0, sa.1);
                    if !fits(o) || !fits(o + sa.0) {
                        Err(fname)
                    } else {
                        Ok(
                            (
                                o + sa.0,
                                if sa.1 > prev.1 {
                                    sa.1
                                } else {
                                    prev.1
                                },
                            ),
                        )
                    }
                },
            },
        }
    }
}

proof fn lemma_slot_totals_err(params: Seq<ResolvedParam>, k: int, fname: Seq<char>, ir: ValidatedIr)
    requires
        0 <= k <= params.len(),
        ts_slot_totals(params.take(k), fname, ir) is Err,
    ensures
        ts_slot_totals(params, fname, ir) == ts_slot_totals(params.take(k), fname, ir),
    decreases params.len(),
{
    if k == params.len() {
        assert(params.take(k) =~= params);
    } else {
        assert(params.drop_last().take(k) =~= params.take(k));
        lemma_slot_totals_err(params.drop_last(), k, fname, ir);
    }
}

/// The write of one parameter of a 2+ parameter call at offset `o`, and the
/// next temporary counter.
pub open spec fn ts_param_write(p: ResolvedParam, o: nat, k: nat, ir: ValidatedIr) -> Result<(Seq<char>, nat), Seq<char>> {
    match p.ty {
        ResolvedTypeRef::AbiType(AbiBuiltin::StringView) => Ok(
            (ts_sv_write(Seq::<char>::empty(), p.name@, p.name@, "argsPtr"@, o), k),
        ),
        ResolvedTypeRef::AbiType(AbiBuiltin::Buffer) => Ok(
            (ts_buf_write(Seq::<char>::empty(), p.name@, p.name@, "argsPtr"@, o), k),
        ),
        ResolvedTypeRef::AbiType(AbiBuiltin::Void) => Ok((Seq::<char>::empty(), k)),
        ResolvedTypeRef::UserDefined(nm) => match find_enum(ir.enums@, nm@) {
            Some(e) => Ok((js_write_repr(e.repr, "        "@, "argsPtr"@, o, p.name@), k)),
            None => js_pack(p.ty, "argsPtr"@, o, p.name@, ir, k, layout_fuel(ir)),
        },
        _ => match js_write(p.ty, "        "@, "argsPtr"@, o, p.name@, ir, layout_fuel(ir)) {
            Err(e) => Err(e),
            Ok(t) => Ok((t, k)),
        },
    }
}

fn param_write(p: &ResolvedParam, o: usize, sv_idx: &mut u32, ir: &ValidatedIr) -> (r: Result<String, crate::error::CodegenError>)
    ensures
        match r {
            Ok(t) => ts_param_write(*p, o as nat, *old(sv_idx) as nat, *ir) matches Ok(w) && t@ == w.0 && *final(sv_idx) as nat == w.1,
            Err(e) => ts_param_write(*p, o as nat, *old(sv_idx) as nat, *ir) matches Err(n) && unsupported_is(e, n),
        },
{
    let mut t: String = String::new();
    let n: &str = p.name.as_str();
    match &p.ty {
        ResolvedTypeRef::AbiType(AbiBuiltin::StringView) => {
            emit_ts_write_string_view(&mut t, n, n, "argsPtr", o);
            Ok(t)
        },
        ResolvedTypeRef::AbiType(AbiBuiltin::Buffer) => {
            emit_ts_write_buffer(&mut t, n, n, "argsPtr", o);
            Ok(t)
        },
        ResolvedTypeRef::AbiType(AbiBuiltin::Void) => Ok(t),
        ResolvedTypeRef::UserDefined(_) => {
            match js_enum_for_type(&p.ty, ir.enums.as_slice()) {
                Some(_) => {
                    match emit_js_write_value(&mut t, "        ", &p.ty, "argsPtr", o, n, ir) {
                        Ok(_) => Ok(t),
                        Err(e) => Err(e),
                    }
                },
                None => {
                    match emit_ts_caller_pack_value(&mut t, &p.ty, "argsPtr", o, n, ir, sv_idx) {
                        Ok(_) => Ok(t),
                        Err(e) => Err(e),
                    }
                },
            }
        },
        _ => {
            match emit_js_write_value(&mut t, "        ", &p.ty, "argsPtr", o, n, ir) {
                Ok(_) => Ok(t),
                Err(e) => Err(e),
            }
        },
    }
}

/// The writes of every parameter of a 2+ parameter call at its C-layout
/// offset; the text, the end offset and the temporary counter.
pub open spec fn ts_multi_writes(params: Seq<ResolvedParam>, fname: Seq<char>, ir: ValidatedIr) -> Result<(Seq<char>, nat, nat), Seq<char>>
    decreases params.len(),
{
    if params.len() == 0 {
        Ok((Seq::<char>::empty(), 0, 0))
    } else {
        match ts_multi_writes(params.drop_last(), fname, ir) {
            Err(e) => Err(e),
            Ok(prev) => match js_slot(params.last().ty, ir) {
                Err(e) => Err(e),
                Ok(sa) => {
                    let o = align_to(prev.1, sa.1);
                    if !fits(o) {
                        Err(fname)
                    } else {
                        match ts_param_write(params.last(), o, prev.2, ir) {
                            Err(e) => Err(e),
                            Ok(w) => if fits(o + sa.0) {
                                Ok((prev.0 + w.0, o + sa.0, w.1))
                            } else {
                                Err(fname)
                            },
                        }
                    }
                },
            },
        }
    }
}

proof fn lemma_multi_writes_err(params: Seq<ResolvedParam>, k: int, fname: Seq<char>, ir: ValidatedIr)
    requires
        0 <= k <= params.len(),
        ts_multi_writes(params.take(k), fname, ir) is Err,
    ensures
        ts_multi_writes(params, fname, ir) == ts_multi_writes(params.take(k), fname, ir),
    decreases params.len(),
{
    if k == params.len() {
        assert(params.take(k) =~= params);
    } else {
        assert(params.drop_last().take(k) =~= params.take(k));
        lemma_multi_writes_err(params.drop_last(), k, fname, ir);
    }
}

/// The args setup of a guest-side caller method: no buffer without
/// parameters, the bare value for one, a C-layout pack for two or more.
pub open spec fn ts_args_setup(f: ResolvedFunction, ir: ValidatedIr) -> Result<Seq<char>, Seq<char>> {
    if f.params@.len() == 0 {
        Ok(TS_NO_ARGS@)
    } else if f.params@.len() == 1 {
        ts_single_arg(f.params@[0], ir)
    } else {
        match ts_slot_totals(f.params@, f.name@, ir) {
            Err(e) => Err(e),
            Ok(t) => {
                let total = align_to(t.0, t.1);
                if !fits(total) {
                    Err(f.name@)
                } else {
                    match ts_multi_writes(f.params@, f.name@, ir) {
                        Err(e) => Err(e),
                        Ok(w) => Ok("        const _argsBuf = _callerAlloc("@ + dec_digits(total) + ");\n"@ + TS_ARGS_PTR@ + w.0),
                    }
                }
            },
        }
    }
}

fn slot_totals(f: &ResolvedFunction, ir: &ValidatedIr) -> (r: Result<(usize, usize), crate::error::CodegenError>)
    ensures
        match r {
            Ok(t) => ts_slot_totals(f.params@, f.name@, *ir) == Ok::<(nat, nat), Seq<char>>((t.0 as nat, t.1 as nat)),
            Err(e) => ts_slot_totals(f.params@, f.name@, *ir) matches Err(n) && unsupported_is(e, n),
        },
{
    let ghost ps = f.params@;
    let n: usize = f.params.len();
    let mut total: usize = 0;
    let mut max_align: usize = 1;
    let mut i: usize = 0;
    while i < n
        invariant
            n == ps.len(),
            ps == f.params@,
            i <= n,
            ts_slot_totals(ps.take(i as int), f.name@, *ir) == Ok::<(nat, nat), Seq<char>>((total as nat, max_align as nat)),
        decreases n - i,
    {
        assert(ps.take(i + 1).drop_last() =~= ps.take(i as int));
        assert(ps.take(i + 1).last() == ps[i as int]);
        let sa: (usize, usize) = match js_caller_slot_layout(&f.params[i].ty, ir) {
            Ok(sa) => sa,
            Err(e) => {
                proof {
                    lemma_slot_totals_err(ps, i + 1, f.name@, *ir);
                }
                return Err(e);
            },
        };
        if sa.1 > max_align {
            max_align = sa.1;
        }
        let o: usize = match align_up_checked(total, sa.1) {
            Some(o) => o,
            None => {
                proof {
                    lemma_slot_totals_err(ps, i + 1, f.name@, *ir);
                }
                return Err(unsupported(f.name.as_str()));
            },
        };
        total = match o.checked_add(sa.0) {
            Some(v) => v,
            None => {
                proof {
                    lemma_slot_totals_err(ps, i + 1, f.name@, *ir);
                }
                return Err(unsupported(f.name.as_str()));
            },
        };
        i = i + 1;
    }
    assert(ps.take(n as int) =~= ps);
    Ok((total, max_align))
}

fn multi_writes(f: &ResolvedFunction, ir: &ValidatedIr) -> (r: Result<String, crate::error::CodegenError>)
    ensures
        match r {
            Ok(t) => ts_multi_writes(f.params@, f.name@, *ir) matches Ok(w) && t@ == w.0,
            Err(e) => ts_multi_writes(f.params@, f.name@, *ir) matches Err(n) && unsupported_is(e, n),
        },
{
    let ghost ps = f.params@;
    let n: usize = f.params.len();
    let mut acc: String = String::new();
    let mut offset: usize = 0;
    let mut sv_idx: u32 = 0;
    let mut i: usize = 0;
    while i < n
        invariant
            n == ps.len(),
            ps == f.params@,
            i <= n,
            ts_multi_writes(ps.take(i as int), f.name@, *ir) == Ok::<(Seq<char>, nat, nat), Seq<char>>(
                (acc@, offset as nat, sv_idx as nat),
            ),
        decreases n - i,
    {
        assert(ps.take(i + 1).drop_last() =~= ps.take(i as int));
        assert(ps.take(i + 1).last() == ps[i as int]);
        let sa: (usize, usize) = match js_caller_slot_layout(&f.params[i].ty, ir) {
            Ok(sa) => sa,
            Err(e) => {
                proof {
                    lemma_multi_writes_err(ps, i + 1, f.name@, *ir);
                }
                return Err(e);
            },
        };
        let o: usize = match align_up_checked(offset, sa.1) {
            Some(o) => o,
            None => {
                proof {
                    lemma_multi_writes_err(ps, i + 1, f.name@, *ir);
                }
                return Err(unsupported(f.name.as_str()));
            },
        };
        let w: String = match param_write(&f.params[i], o, &mut sv_idx, ir) {
            Ok(w) => w,
            Err(e) => {
                proof {
                    lemma_multi_writes_err(ps, i + 1, f.name@, *ir);
                }
                return Err(e);
            },
        };
        offset = match o.checked_add(sa.0) {
            Some(v) => v,
            None => {
                proof {
                    lemma_multi_writes_err(ps, i + 1, f.name@, *ir);
                }
                return Err(unsupported(f.name.as_str()));
            },
        };
        acc.append(w.as_str());
        i = i + 1;
    }
    assert(ps.take(n as int) =~= ps);
    Ok(acc)
}

/// Emit the argsPtr setup for a guest-side host-contract or peer caller
/// method; every transient buffer comes from `_callerAlloc` and is freed by
/// the method's `finally`. On an error `out` is left unchanged.
#[verifier::rlimit(40)]
pub fn emit_ts_guest_host_contract_args_setup(out: &mut String, func: &ResolvedFunction, ir: &ValidatedIr) -> (r: Result<
    (),
    crate::error::CodegenError,
>)
    ensures
        match r {
            Ok(_) => ts_args_setup(*func, *ir) matches Ok(t) && final(out)@ == old(out)@ + t,
            Err(e) => ts_args_setup(*func, *ir) matches Err(n) && unsupported_is(e, n) && final(out)@ == old(out)@,
        },
{
    if func.params.len() == 0 {
        out.append(TS_NO_ARGS);
        return Ok(());
    }
    if func.params.len() == 1 {
        let t: String = match single_arg(&func.params[0], ir) {
            Ok(t) => t,
            Err(e) => {
                return Err(e);
            },
        };
        out.append(t.as_str());
        return Ok(());
    }
    let tm: (usize, usize) = match slot_totals(func, ir) {
        Ok(tm) => tm,
        Err(e) => {
            return Err(e);
        },
    };
    let total: usize = match align_up_checked(tm.0, tm.1) {
        Some(t) => t,
        None => {
            return Err(unsupported(func.name.as_str()));
        },
    };
    let w: String = match multi_writes(func, ir) {
        Ok(w) => w,
        Err(e) => {
            return Err(e);
        },
    };
    out.append("        const _argsBuf = _callerAlloc(");
    push_usize(out, total);
    out.append(");\n");
    out.append(TS_ARGS_PTR);
    out.append(w.as_str());
    Ok(())
}

// ─── Guest-side callers: out slot and read-back ─────────────────────────────

/// The out setup without a result.
pub const TS_NO_OUT: &'static str = "        const outPtr = 0;\n";

/// The computation of `outPtr` from the allocated out buffer.
pub const TS_OUT_PTR: &'static str = "        const outPtr = _outBuf[0] + _outBuf[1] * 4294967296;\n";

/// A pre-zeroed 8-byte out slot.
pub const TS_OUT_SLOT8: &'static str = "        const _outBuf = _callerAlloc(8);\n        const outPtr = _outBuf[0] + _outBuf[1] * 4294967296;\n        polyplug.writeU32(outPtr, 0);\n        polyplug.writeU32(outPtr + 4, 0);\n";

/// A pre-zeroed StringView out slot.
pub const TS_OUT_SV: &'static str = "        const _outBuf = _callerAlloc(16);\n        const outPtr = _outBuf[0] + _outBuf[1] * 4294967296;\n        polyplug.writeU32(outPtr, 0);\n        polyplug.writeU32(outPtr + 4, 0);\n        polyplug.writeU32(outPtr + 8, 0);\n        polyplug.writeU32(outPtr + 12, 0);\n";

/// A pre-zeroed Buffer out slot.
pub const TS_OUT_BUF: &'static str = "        const _outBuf = _callerAlloc(24);\n        const outPtr = _outBuf[0] + _outBuf[1] * 4294967296;\n        polyplug.writeU32(outPtr, 0);\n        polyplug.writeU32(outPtr + 4, 0);\n        polyplug.writeU32(outPtr + 8, 0);\n        polyplug.writeU32(outPtr + 12, 0);\n        polyplug.writeU32(outPtr + 16, 0);\n        polyplug.writeU32(outPtr + 20, 0);\n";

/// The zeroing of the first `n` 32-bit words of the out slot.
pub open spec fn ts_zero_words(n: nat) -> Seq<char>
    decreases n,
{
    if n == 0 {
        Seq::<char>::empty()
    } else {
        ts_zero_words((n - 1) as nat) + "        polyplug.writeU32("@ + ptr_at("outPtr"@, ((n - 1) * 4) as nat) + ", 0);\n"@
    }
}

/// The number of 32-bit words covering `size` bytes.
pub open spec fn words_of(size: nat) -> nat {
    size / 4 + if size % 4 == 0 {
        0nat
    } else {
        1nat
    }
}

/// The out setup of a guest-side caller method: a pre-zeroed slot of the
/// result's size.
pub open spec fn ts_out_setup(ret: Option<ResolvedTypeRef>, ir: ValidatedIr) -> Result<Seq<char>, Seq<char>> {
    match ret {
        None => Ok(TS_NO_OUT@),
        Some(t) => match t {
            ResolvedTypeRef::AbiType(AbiBuiltin::StringView) => Ok(TS_OUT_SV@),
            ResolvedTypeRef::AbiType(AbiBuiltin::Buffer) => Ok(TS_OUT_BUF@),
            ResolvedTypeRef::AbiType(AbiBuiltin::Void) => Ok(TS_NO_OUT@),
            ResolvedTypeRef::UserDefined(nm) => match find_type(ir.types@, nm@) {
                Some(_) => match js_size(t, ir.types@, ir.enums@, layout_fuel(ir)) {
                    Err(e) => Err(e),
                    Ok(size) => Ok(
                        "        const _outBuf = _callerAlloc("@ + dec_digits(size) + ");\n"@ + TS_OUT_PTR@ + ts_zero_words(words_of(size)),
                    ),
                },
                None => Ok(TS_OUT_SLOT8@),
            },
            _ => Ok(TS_OUT_SLOT8@),
        },
    }
}

/// Emit the outPtr setup for a guest-side caller method; on an error `out`
/// is left unchanged.
pub fn emit_ts_guest_host_contract_out_setup(out: &mut String, ret: &Option<ResolvedTypeRef>, ir: &ValidatedIr) -> (r: Result<
    (),
    crate::error::CodegenError,
>)
    ensures
        match r {
            Ok(_) => ts_out_setup(*ret, *ir) matches Ok(t) && final(out)@ == old(out)@ + t,
            Err(e) => ts_out_setup(*ret, *ir) matches Err(n) && unsupported_is(e, n) && final(out)@ == old(out)@,
        },
{
    match ret {
        None => {
            out.append(TS_NO_OUT);
            Ok(())
        },
        Some(t) => match t {
            ResolvedTypeRef::AbiType(AbiBuiltin::StringView) => {
                out.append(TS_OUT_SV);
                Ok(())
            },
            ResolvedTypeRef::AbiType(AbiBuiltin::Buffer) => {
                out.append(TS_OUT_BUF);
                Ok(())
            },
            ResolvedTypeRef::AbiType(AbiBuiltin::Void) => {
                out.append(TS_NO_OUT);
                Ok(())
            },
            ResolvedTypeRef::UserDefined(_) => match js_struct_for_type(t, ir.types.as_slice()) {
                Some(_) => {
                    let size: usize = match js_c_size(t, ir) {
                        Ok(s) => s,
                        Err(e) => {
                            return Err(e);
                        },
                    };
                    let ghost o0 = out@;
                    out.append("        const _outBuf = _callerAlloc(");
                    push_usize(out, size);
                    out.append(");\n");
                    out.append(TS_OUT_PTR);
                    let ghost o1 = out@;
                    let words: usize = size / 4 + if size % 4 == 0 {
                        0
                    } else {
                        1
                    };
                    let mut w: usize = 0;
                    while w < words
                        invariant
                            w <= words,
                            words as nat == words_of(size as nat),
                            out@ == o1 + ts_zero_words(w as nat),
                        decreases words - w,
                    {
                        assert(w * 4 < size) by (nonlinear_arith)
                            requires
                                w < words,
                                words == size / 4 + if size % 4 == 0 {
                                    0usize
                                } else {
                                    1usize
                                },
                        ;
                        out.append("        polyplug.writeU32(");
                        push_ptr_at(out, "outPtr", w * 4, 0);
                        out.append(", 0);\n");
                        assert(out@ =~= o1 + ts_zero_words((w + 1) as nat));
                        w = w + 1;
                    }
                    assert(out@ =~= o0 + ("        const _outBuf = _callerAlloc("@ + dec_digits(size as nat) + ");\n"@ + TS_OUT_PTR@
                        + ts_zero_words(words_of(size as nat))));
                    Ok(())
                },
                None => {
                    out.append(TS_OUT_SLOT8);
                    Ok(())
                },
            },
            _ => {
                out.append(TS_OUT_SLOT8);
                Ok(())
            },
        },
    }
}

/// Read-back of a StringView result.
pub const TS_RB_SV: &'static str = "        const result = { ptr_lo: polyplug.readU32(outPtr), ptr_hi: polyplug.readU32(outPtr + 4), len: polyplug.readU32(outPtr + 8) };\n";

/// Read-back of a Buffer result.
pub const TS_RB_BUF: &'static str = "        const result = { ptr_lo: polyplug.readU32(outPtr), ptr_hi: polyplug.readU32(outPtr + 4), len: polyplug.readU32(outPtr + 8), cap: polyplug.readU32(outPtr + 16) };\n";

/// Read-back of a 64-bit or pointer result as lo/hi words.
pub const TS_RB_LOHI: &'static str = "        const result = { lo: polyplug.readU32(outPtr), hi: polyplug.readU32(outPtr + 4) };\n";

/// Read-back of an i32 result.
pub const TS_RB_I32: &'static str = "        const result: number = polyplug.readI32(outPtr);\n";

/// Read-back of an i8 result, sign-extended.
pub const TS_RB_I8: &'static str = "        const result: number = ((polyplug.readByte(outPtr) << 24) >> 24);\n";

/// Read-back of an i16 result, sign-extended.
pub const TS_RB_I16: &'static str = "        const result: number = (((polyplug.readByte(outPtr) | (polyplug.readByte(outPtr + 1) << 8)) << 16) >> 16);\n";

/// Read-back of an f32 result.
pub const TS_RB_F32: &'static str = "        const result: number = polyplug.readF32(outPtr);\n";

/// Read-back of an f64 result.
pub const TS_RB_F64: &'static str = "        const result: number = polyplug.readF64(outPtr);\n";

/// Read-back of any other scalar result.
pub const TS_RB_U32: &'static str = "        const result: number = polyplug.readU32(outPtr);\n";

/// Read-back of a u64-repr enum result.
pub const TS_RB_ENUM64: &'static str = "        const result = (polyplug.readU32(outPtr) + polyplug.readU32(outPtr + 4) * 4294967296) as any;\n";

/// Read-back of a narrower enum result.
pub const TS_RB_ENUM: &'static str = "        const result = polyplug.readU32(outPtr) as any;\n";

/// Read-back of an unknown named result as lo/hi words.
pub const TS_RB_LOHI_ANY: &'static str = "        const result = { lo: polyplug.readU32(outPtr), hi: polyplug.readU32(outPtr + 4) } as any;\n";

/// The referenced value of an optional reference.
pub open spec fn opt_deref(o: Option<&ResolvedTypeRef>) -> Option<ResolvedTypeRef> {
    match o {
        Some(t) => Some(*t),
        None => None,
    }
}

/// `const result = …;` read back from `outPtr` after a successful call.
pub open spec fn ts_readback(ret: Option<ResolvedTypeRef>, ir: ValidatedIr) -> Result<Seq<char>, Seq<char>> {
    match ret {
        None => Ok(Seq::<char>::empty()),
        Some(t) => match t {
            ResolvedTypeRef::AbiType(AbiBuiltin::StringView) => Ok(TS_RB_SV@),
            ResolvedTypeRef::AbiType(AbiBuiltin::Buffer) => Ok(TS_RB_BUF@),
            ResolvedTypeRef::AbiType(AbiBuiltin::Ptr) => Ok(TS_RB_LOHI@),
            ResolvedTypeRef::AbiType(AbiBuiltin::Void) => Ok(Seq::<char>::empty()),
            ResolvedTypeRef::Primitive(p) => Ok(
                match p {
                    PrimitiveType::U64 | PrimitiveType::I64 => TS_RB_LOHI@,
                    PrimitiveType::I32 => TS_RB_I32@,
                    PrimitiveType::I8 => TS_RB_I8@,
                    PrimitiveType::I16 => TS_RB_I16@,
                    PrimitiveType::F32 => TS_RB_F32@,
                    PrimitiveType::F64 => TS_RB_F64@,
                    _ => TS_RB_U32@,
                },
            ),
            ResolvedTypeRef::UserDefined(nm) => match find_type(ir.types@, nm@) {
                Some(_) => match js_read(t, "outPtr"@, 0, ir, layout_fuel(ir)) {
                    Err(e) => Err(e),
                    Ok(x) => Ok("        const result = "@ + x + ";\n"@),
                },
                None => Ok(
                    match find_enum(ir.enums@, nm@) {
                        Some(e) => if e.repr == ReprType::U64 {
                            TS_RB_ENUM64@
                        } else {
                            TS_RB_ENUM@
                        },
                        None => TS_RB_LOHI_ANY@,
                    },
                ),
            },
        },
    }
}

/// Emit `const result = …;` read back from `outPtr` after the call
/// succeeded; on an error `out` is left unchanged.
pub fn emit_ts_guest_host_contract_readback(out: &mut String, ret: Option<&ResolvedTypeRef>, ir: &ValidatedIr) -> (r: Result<
    (),
    crate::error::CodegenError,
>)
    ensures
        match r {
            Ok(_) => ts_readback(opt_deref(ret), *ir) matches Ok(t) && final(out)@ == old(out)@ + t,
            Err(e) => ts_readback(opt_deref(ret), *ir) matches Err(n) && unsupported_is(e, n) && final(out)@ == old(out)@,
        },
{
    let t: &ResolvedTypeRef = match ret {
        Some(t) => t,
        None => {
            assert(out@ =~= out@ + Seq::<char>::empty());
            return Ok(());
        },
    };
    match t {
        ResolvedTypeRef::AbiType(AbiBuiltin::StringView) => out.append(TS_RB_SV),
        ResolvedTypeRef::AbiType(AbiBuiltin::Buffer) => out.append(TS_RB_BUF),
        ResolvedTypeRef::AbiType(AbiBuiltin::Ptr) => out.append(TS_RB_LOHI),
        ResolvedTypeRef::AbiType(AbiBuiltin::Void) => {
            assert(out@ =~= out@ + Seq::<char>::empty());
        },
        ResolvedTypeRef::Primitive(p) => match p {
            PrimitiveType::U64 | PrimitiveType::I64 => out.append(TS_RB_LOHI),
            PrimitiveType::I32 => out.append(TS_RB_I32),
            PrimitiveType::I8 => out.append(TS_RB_I8),
            PrimitiveType::I16 => out.append(TS_RB_I16),
            PrimitiveType::F32 => out.append(TS_RB_F32),
            PrimitiveType::F64 => out.append(TS_RB_F64),
            _ => out.append(TS_RB_U32),
        },
        ResolvedTypeRef::UserDefined(_) => match js_struct_for_type(t, ir.types.as_slice()) {
            Some(_) => {
                let x: String = match js_read_expr(t, "outPtr", 0, ir) {
                    Ok(x) => x,
                    Err(e) => {
                        return Err(e);
                    },
                };
                out.append("        const result = ");
                out.append(x.as_str());
                out.append(";\n");
            },
            None => match js_enum_for_type(t, ir.enums.as_slice()) {
                Some(e) => {
                    if matches!(e.repr, ReprType::U64) {
                        out.append(TS_RB_ENUM64);
                    } else {
                        out.append(TS_RB_ENUM);
                    }
                },
                None => out.append(TS_RB_LOHI_ANY),
            },
        },
    }
    Ok(())
}

// ─── Guest-side host-contract and peer caller classes ───────────────────────

/// The host-allocator shim of a caller method: every transient buffer is
/// recorded so that the method's `finally` frees it.
pub const TS_ALLOC_SHIM: &'static str = "        const _frees: number[][] = [];\n        const _callerAlloc = (sz: number): number[] => { const _a = polyplug.alloc(sz); _frees.push([_a[0], _a[1], sz]); return _a; };\n";

/// The `finally` block that frees every buffer `_callerAlloc` recorded.
pub const TS_FREE_SHIM: &'static str = "        } finally {\n            for (const _f of _frees) { polyplug.free(_f[0], _f[1], _f[2], 1); }\n        }\n";

/// Emit the caller-local host allocator and its free-list.
pub fn emit_ts_caller_alloc_shim(out: &mut String)
    ensures
        final(out)@ == old(out)@ + TS_ALLOC_SHIM@,
{
    out.append(TS_ALLOC_SHIM);
}

/// Emit the `finally` block that frees every region `_callerAlloc` recorded.
pub fn emit_ts_caller_free_shim(out: &mut String)
    ensures
        final(out)@ == old(out)@ + TS_FREE_SHIM@,
{
    out.append(TS_FREE_SHIM);
}

/// The raw ABI return type of a caller method, `void` without a result.
pub open spec fn ts_caller_ret(ret: Option<ResolvedTypeRef>) -> Seq<char> {
    match ret {
        Some(t) => ts_peer_raw(t),
        None => "void"@,
    }
}

/// `acc` followed by a caller method's doc line, signature, bridge check,
/// allocator shim and `try`.
pub open spec fn ts_caller_head(acc: Seq<char>, f: ResolvedFunction, peer: bool) -> Seq<char> {
    acc + (if peer {
        "    /** Call peer `"@
    } else {
        "    /** Call `"@
    }) + f.name@ + "` */\n"@ + "    "@ + f.name@ + "("@ + ts_params(f.params@, true) + "): "@ + ts_caller_ret(f.returns) + " {\n"@
        + "        const polyplug = this._bridge;\n"@ + (if peer {
        "        if (!polyplug || !polyplug.callGuestMethod) {\n"@
    } else {
        "        if (!polyplug || !polyplug.callHostContract) {\n"@
    }) + (if f.returns is Some {
        "            return null as any;\n"@
    } else {
        "            return;\n"@
    }) + "        }\n"@ + TS_ALLOC_SHIM@ + "        try {\n"@
}

fn push_caller_head(out: &mut String, f: &ResolvedFunction, peer: bool)
    ensures
        final(out)@ == ts_caller_head(old(out)@, *f, peer),
{
    let ghost o0 = out@;
    if peer {
        out.append("    /** Call peer `");
    } else {
        out.append("    /** Call `");
    }
    let ghost o1 = out@;
    out.append(f.name.as_str());
    out.append("` */\n");
    out.append("    ");
    out.append(f.name.as_str());
    out.append("(");
    push_ts_params(out, &f.params, true);
    out.append("): ");
    match &f.returns {
        Some(t) => {
            let r: String = ts_peer_raw_return_type(t);
            out.append(r.as_str());
        },
        None => out.append("void"),
    }
    out.append(" {\n");
    out.append("        const polyplug = this._bridge;\n");
    if peer {
        out.append("        if (!polyplug || !polyplug.callGuestMethod) {\n");
    } else {
        out.append("        if (!polyplug || !polyplug.callHostContract) {\n");
    }
    if f.returns.is_some() {
        out.append("            return null as any;\n");
    } else {
        out.append("            return;\n");
    }
    out.append("        }\n");
    emit_ts_caller_alloc_shim(out);
    out.append("        try {\n");
}

/// `acc` followed by the bridge call of a caller method and its error check.
pub open spec fn ts_caller_call(acc: Seq<char>, f: ResolvedFunction, lo: nat, hi: nat, peer: bool, minv: nat) -> Seq<char> {
    acc + (if peer {
        "        const errCode: number = polyplug.callGuestMethod(0x"@
    } else {
        "        const errCode: number = polyplug.callHostContract(0x"@
    }) + hex_digits(lo, 8) + ", 0x"@ + hex_digits(hi, 8) + ", "@ + (if peer {
        dec_digits(minv)
    } else {
        "this._minVersion"@
    }) + ", "@ + dec_digits(f.function_id as nat) + ", argsPtr, outPtr);\n"@ + "        if (errCode !== 0) {\n"@ + (if peer {
        "            throw new Error(`peer call "@
    } else {
        "            throw new Error(`host contract call "@
    }) + f.name@ + " failed (code ${errCode})`);\n"@ + "        }\n"@
}

fn push_caller_call(out: &mut String, f: &ResolvedFunction, lo: u32, hi: u32, peer: bool, minv: u32)
    ensures
        final(out)@ == ts_caller_call(old(out)@, *f, lo as nat, hi as nat, peer, minv as nat),
{
    if peer {
        out.append("        const errCode: number = polyplug.callGuestMethod(0x");
    } else {
        out.append("        const errCode: number = polyplug.callHostContract(0x");
    }
    crate::text::push_hex8(out, lo);
    out.append(", 0x");
    crate::text::push_hex8(out, hi);
    out.append(", ");
    if peer {
        push_u32(out, minv);
    } else {
        out.append("this._minVersion");
    }
    out.append(", ");
    push_u32(out, f.function_id);
    out.append(", argsPtr, outPtr);\n");
    out.append("        if (errCode !== 0) {\n");
    if peer {
        out.append("            throw new Error(`peer call ");
    } else {
        out.append("            throw new Error(`host contract call ");
    }
    out.append(f.name.as_str());
    out.append(" failed (code ${errCode})`);\n");
    out.append("        }\n");
}

/// The read-back and return of a caller method's result, if it has one.
pub open spec fn ts_caller_ret_part(f: ResolvedFunction, ir: ValidatedIr) -> Result<Seq<char>, Seq<char>> {
    if f.returns is None {
        Ok(Seq::<char>::empty())
    } else {
        match ts_readback(f.returns, ir) {
            Err(e) => Err(e),
            Ok(rb) => Ok(rb + "        return result;\n"@),
        }
    }
}

/// A guest-side caller method (`peer` selects the peer bridge call): the
/// args pack, the out slot, the call, the read-back and the frees.
pub open spec fn ts_caller_method(f: ResolvedFunction, lo: nat, hi: nat, peer: bool, minv: nat, ir: ValidatedIr) -> Result<
    Seq<char>,
    Seq<char>,
> {
    match ts_args_setup(f, ir) {
        Err(e) => Err(e),
        Ok(a) => match ts_out_setup(f.returns, ir) {
            Err(e) => Err(e),
            Ok(o) => match ts_caller_ret_part(f, ir) {
                Err(e) => Err(e),
                Ok(r) => Ok(
                    ts_caller_call(ts_caller_head(Seq::<char>::empty(), f, peer) + a + o, f, lo, hi, peer, minv) + r + TS_FREE_SHIM@
                        + "    }\n\n"@,
                ),
            },
        },
    }
}

fn push_caller_method(out: &mut String, f: &ResolvedFunction, lo: u32, hi: u32, peer: bool, minv: u32, ir: &ValidatedIr) -> (r: Result<
    (),
    crate::error::CodegenError,
>)
    ensures
        match r {
            Ok(_) => ts_caller_method(*f, lo as nat, hi as nat, peer, minv as nat, *ir) matches Ok(t) && final(out)@ == old(out)@ + t,
            Err(e) => ts_caller_method(*f, lo as nat, hi as nat, peer, minv as nat, *ir) matches Err(n) && unsupported_is(e, n)
                && final(out)@ == old(out)@,
        },
{
    let mut t: String = String::new();
    push_caller_head(&mut t, f, peer);
    match emit_ts_guest_host_contract_args_setup(&mut t, f, ir) {
        Ok(_) => {},
        Err(e) => {
            return Err(e);
        },
    }
    match emit_ts_guest_host_contract_out_setup(&mut t, &f.returns, ir) {
        Ok(_) => {},
        Err(e) => {
            return Err(e);
        },
    }
    push_caller_call(&mut t, f, lo, hi, peer, minv);
    let ghost t1 = t@;
    let ret_ref: Option<&ResolvedTypeRef> = f.returns.as_ref();
    assert(opt_deref(ret_ref) == f.returns);
    let mut rp: String = String::new();
    if f.returns.is_some() {
        match emit_ts_guest_host_contract_readback(&mut rp, ret_ref, ir) {
            Ok(_) => {},
            Err(e) => {
                return Err(e);
            },
        }
        let ghost rb = rp@;
        rp.append("        return result;\n");
        assert(rb =~= Seq::<char>::empty() + rb);
    } else {
        assert(rp@ =~= Seq::<char>::empty());
    }
    assert(ts_caller_ret_part(*f, *ir) == Ok::<Seq<char>, Seq<char>>(rp@));
    t.append(rp.as_str());
    let ghost t2 = t@;
    emit_ts_caller_free_shim(&mut t);
    t.append("    }\n\n");

    out.append(t.as_str());
    Ok(())
}

/// Generate one method of a guest-side host-contract caller class.
pub fn generate_ts_guest_host_contract_method(out: &mut String, func: &ResolvedFunction, contract_id_lo: u32, contract_id_hi: u32, ir: &ValidatedIr) -> (r: Result<
    (),
    crate::error::CodegenError,
>)
    ensures
        match r {
            Ok(_) => ts_caller_method(*func, contract_id_lo as nat, contract_id_hi as nat, false, 0, *ir) matches Ok(t) && final(out)@
                == old(out)@ + t,
            Err(e) => ts_caller_method(*func, contract_id_lo as nat, contract_id_hi as nat, false, 0, *ir) matches Err(n) && unsupported_is(
                e,
                n,
            ) && final(out)@ == old(out)@,
        },
{
    push_caller_method(out, func, contract_id_lo, contract_id_hi, false, 0, ir)
}

/// Generate one method of a peer caller class.
pub fn generate_ts_peer_caller_method(
    out: &mut String,
    func: &ResolvedFunction,
    contract_id_lo: u32,
    contract_id_hi: u32,
    min_version: u32,
    ir: &ValidatedIr,
) -> (r: Result<(), crate::error::CodegenError>)
    ensures
        match r {
            Ok(_) => ts_caller_method(*func, contract_id_lo as nat, contract_id_hi as nat, true, min_version as nat, *ir) matches Ok(t)
                && final(out)@ == old(out)@ + t,
            Err(e) => ts_caller_method(*func, contract_id_lo as nat, contract_id_hi as nat, true, min_version as nat, *ir) matches Err(
                n,
            ) && unsupported_is(e, n) && final(out)@ == old(out)@,
        },
{
    push_caller_method(out, func, contract_id_lo, contract_id_hi, true, min_version, ir)
}

/// Every method of a caller class, in order.
pub open spec fn ts_caller_methods(funcs: Seq<ResolvedFunction>, lo: nat, hi: nat, peer: bool, minv: nat, ir: ValidatedIr) -> Result<
    Seq<char>,
    Seq<char>,
>
    decreases funcs.len(),
{
    if funcs.len() == 0 {
        Ok(Seq::<char>::empty())
    } else {
        match ts_caller_methods(funcs.drop_last(), lo, hi, peer, minv, ir) {
            Err(e) => Err(e),
            Ok(p) => match ts_caller_method(funcs.last(), lo, hi, peer, minv, ir) {
                Err(e) => Err(e),
                Ok(m) => Ok(p + m),
            },
        }
    }
}

proof fn lemma_caller_methods_err(funcs: Seq<ResolvedFunction>, k: int, lo: nat, hi: nat, peer: bool, minv: nat, ir: ValidatedIr)
    requires
        0 <= k <= funcs.len(),
        ts_caller_methods(funcs.take(k), lo, hi, peer, minv, ir) is Err,
    ensures
        ts_caller_methods(funcs, lo, hi, peer, minv, ir) == ts_caller_methods(funcs.take(k), lo, hi, peer, minv, ir),
    decreases funcs.len(),
{
    if k == funcs.len() {
        assert(funcs.take(k) =~= funcs);
    } else {
        assert(funcs.drop_last().take(k) =~= funcs.take(k));
        lemma_caller_methods_err(funcs.drop_last(), k, lo, hi, peer, minv, ir);
    }
}

fn caller_methods(funcs: &Vec<ResolvedFunction>, lo: u32, hi: u32, peer: bool, minv: u32, ir: &ValidatedIr) -> (r: Result<
    String,
    crate::error::CodegenError,
>)
    ensures
        match r {
            Ok(t) => ts_caller_methods(funcs@, lo as nat, hi as nat, peer, minv as nat, *ir) == Ok::<Seq<char>, Seq<char>>(t@),
            Err(e) => ts_caller_methods(funcs@, lo as nat, hi as nat, peer, minv as nat, *ir) matches Err(n) && unsupported_is(e, n),
        },
{
    let mut acc: String = String::new();
    let n: usize = funcs.len();
    let mut i: usize = 0;
    while i < n
        invariant
            n == funcs@.len(),
            i <= n,
            ts_caller_methods(funcs@.take(i as int), lo as nat, hi as nat, peer, minv as nat, *ir) == Ok::<Seq<char>, Seq<char>>(acc@),
        decreases n - i,
    {
        assert(funcs@.take(i + 1).drop_last() =~= funcs@.take(i as int));
        assert(funcs@.take(i + 1).last() == funcs@[i as int]);
        match push_caller_method(&mut acc, &funcs[i], lo, hi, peer, minv, ir) {
            Ok(_) => {},
            Err(e) => {
                proof {
                    lemma_caller_methods_err(funcs@, i + 1, lo as nat, hi as nat, peer, minv as nat, *ir);
                }
                return Err(e);
            },
        }
        i = i + 1;
    }
    assert(funcs@.take(n as int) =~= funcs@);
    Ok(acc)
}

/// The fields, constructor and doc line of the factory of a host-contract
/// caller class.
pub const TS_GH_CLASS_FIELDS: &'static str = "    private _minVersion: number;\n    private _bridge: any;\n    private _hostPtr: { lo: number; hi: number };\n\n    private constructor(bridge: any, hostPtr: { lo: number; hi: number }, minVersion: number) {\n        this._bridge = bridge;\n        this._hostPtr = hostPtr;\n        this._minVersion = minVersion;\n    }\n\n    /** Factory method - creates caller instance or null if the bridge is unavailable. */\n";

/// The bridge check of a host-contract caller's factory.
pub const TS_GH_FROM_HOST_CHECK: &'static str = "        if (!bridge || !bridge.callHostContract) {\n            return null;\n        }\n";

/// The `isValid` method of a host-contract caller class.
pub const TS_GH_IS_VALID: &'static str = "    /** Check if the bridge is available. */\n    isValid(): boolean {\n        return !!(this._bridge && this._bridge.callHostContract);\n    }\n\n";

/// `acc` followed by the doc comment, fields, factory and `isValid` of a
/// host-contract caller class.
pub open spec fn ts_gh_class_head(acc: Seq<char>, c: ResolvedHostContract) -> Seq<char> {
    let cls = ts_host_caller(c.name@);
    acc + "/**\n * Guest caller for host contract `"@ + c.name@ + "` (id=0x"@ + hex_digits(c.contract_id as nat, 16) + ")\n */\n"@
        + "export class "@ + cls + " {\n"@ + TS_GH_CLASS_FIELDS@
        + "    static fromHost(bridge: any, hostPtr: { lo: number; hi: number }, minVersion: number = 0): "@ + cls + " | null {\n"@
        + TS_GH_FROM_HOST_CHECK@ + "        return new "@ + cls + "(bridge, hostPtr, minVersion);\n"@ + "    }\n\n"@ + TS_GH_IS_VALID@
}

fn push_gh_class_head(out: &mut String, c: &ResolvedHostContract)
    ensures
        final(out)@ == ts_gh_class_head(old(out)@, *c),
{
    let cls: String = host_contract_name_to_ts_caller(c.name.as_str());
    out.append("/**\n * Guest caller for host contract `");
    out.append(c.name.as_str());
    out.append("` (id=0x");
    push_hex16(out, c.contract_id);
    out.append(")\n */\n");
    out.append("export class ");
    out.append(cls.as_str());
    out.append(" {\n");
    out.append(TS_GH_CLASS_FIELDS);
    out.append("    static fromHost(bridge: any, hostPtr: { lo: number; hi: number }, minVersion: number = 0): ");
    out.append(cls.as_str());
    out.append(" | null {\n");
    out.append(TS_GH_FROM_HOST_CHECK);
    out.append("        return new ");
    out.append(cls.as_str());
    out.append("(bridge, hostPtr, minVersion);\n");
    out.append("    }\n\n");
    out.append(TS_GH_IS_VALID);
}

/// A guest-side host-contract caller class.
pub open spec fn ts_gh_class(c: ResolvedHostContract, ir: ValidatedIr) -> Result<Seq<char>, Seq<char>> {
    match ts_caller_methods(
        c.functions@,
        (c.contract_id as nat) % 4294967296,
        (c.contract_id as nat) / 4294967296,
        false,
        0,
        ir,
    ) {
        Err(e) => Err(e),
        Ok(m) => Ok(ts_gh_class_head(Seq::<char>::empty(), c) + m + "}\n\n"@),
    }
}

/// Generate one guest-side host-contract caller class; on an error `out` is
/// left unchanged.
pub fn generate_ts_guest_host_contract_caller(out: &mut String, contract: &ResolvedHostContract, ir: &ValidatedIr) -> (r: Result<
    (),
    crate::error::CodegenError,
>)
    ensures
        match r {
            Ok(_) => ts_gh_class(*contract, *ir) matches Ok(t) && final(out)@ == old(out)@ + t,
            Err(e) => ts_gh_class(*contract, *ir) matches Err(n) && unsupported_is(e, n) && final(out)@ == old(out)@,
        },
{
    let lo: u64 = contract.contract_id % 4294967296;
    let hi: u64 = contract.contract_id / 4294967296;
    let m: String = match caller_methods(&contract.functions, lo as u32, hi as u32, false, 0, ir) {
        Ok(m) => m,
        Err(e) => {
            return Err(e);
        },
    };
    let mut t: String = String::new();
    push_gh_class_head(&mut t, contract);
    t.append(m.as_str());
    t.append("}\n\n");
    out.append(t.as_str());
    Ok(())
}

/// The user type names of every host contract's functions.
pub open spec fn js_hc_type_names(contracts: Seq<ResolvedHostContract>) -> Seq<Seq<char>>
    decreases contracts.len(),
{
    if contracts.len() == 0 {
        Seq::<Seq<char>>::empty()
    } else {
        js_hc_type_names(contracts.drop_last()) + js_func_type_names(contracts.last().functions@)
    }
}

/// The user type names referenced by guest-side host-contract caller
/// signatures, sorted, each once.
pub fn collect_ts_guest_host_contract_type_imports(ir: &ValidatedIr) -> (r: Vec<String>)
    ensures
        views(r@) == sort_unique(js_hc_type_names(ir.host_contracts@)),
{
    let mut v: Vec<String> = Vec::new();
    let n: usize = ir.host_contracts.len();
    let mut i: usize = 0;
    while i < n
        invariant
            n == ir.host_contracts@.len(),
            i <= n,
            views(v@) == js_hc_type_names(ir.host_contracts@.take(i as int)),
        decreases n - i,
    {
        let ghost before = views(v@);
        collect_func_type_names(&mut v, &ir.host_contracts[i].functions);
        assert(ir.host_contracts@.take(i + 1).drop_last() =~= ir.host_contracts@.take(i as int));
        assert(ir.host_contracts@.take(i + 1).last() == ir.host_contracts@[i as int]);
        i = i + 1;
    }
    assert(ir.host_contracts@.take(n as int) =~= ir.host_contracts@);
    sort_dedup(v)
}

/// `import { … } from './types';` when any name is imported.
pub open spec fn ts_value_import(names: Seq<Seq<char>>) -> Seq<char> {
    if names.len() == 0 {
        Seq::<char>::empty()
    } else {
        "import { "@ + join_names(names) + " } from './types';\n\n"@
    }
}

fn push_value_import(out: &mut String, names: &Vec<String>)
    ensures
        final(out)@ == old(out)@ + ts_value_import(views(names@)),
{
    let ghost o0 = out@;
    let n: usize = names.len();
    if n == 0 {
        assert(out@ =~= o0 + Seq::<char>::empty());
        return;
    }
    out.append("import { ");
    let ghost o1 = out@;
    let mut i: usize = 0;
    while i < n
        invariant
            n == names@.len(),
            i <= n,
            out@ == o1 + join_names(views(names@).take(i as int)),
        decreases n - i,
    {
        if i > 0 {
            out.append(", ");
        }
        out.append(names[i].as_str());
        proof {
            assert(views(names@).take(i + 1).drop_last() =~= views(names@).take(i as int));
            assert(views(names@).take(i + 1).last() == names@[i as int]@);
            if i == 0 {
                assert(join_names(views(names@).take(1)) == views(names@).take(1)[0]);
                assert(join_names(views(names@).take(0)) =~= Seq::<char>::empty());
            }
        }
        i = i + 1;
    }
    assert(views(names@).take(n as int) =~= views(names@));
    out.append(" } from './types';\n\n");
}

/// Every guest-side host-contract caller class, in order.
pub open spec fn ts_gh_classes(contracts: Seq<ResolvedHostContract>, ir: ValidatedIr) -> Result<Seq<char>, Seq<char>>
    decreases contracts.len(),
{
    if contracts.len() == 0 {
        Ok(Seq::<char>::empty())
    } else {
        match ts_gh_classes(contracts.drop_last(), ir) {
            Err(e) => Err(e),
            Ok(p) => match ts_gh_class(contracts.last(), ir) {
                Err(e) => Err(e),
                Ok(c) => Ok(p + c),
            },
        }
    }
}

proof fn lemma_gh_classes_err(contracts: Seq<ResolvedHostContract>, k: int, ir: ValidatedIr)
    requires
        0 <= k <= contracts.len(),
        ts_gh_classes(contracts.take(k), ir) is Err,
    ensures
        ts_gh_classes(contracts, ir) == ts_gh_classes(contracts.take(k), ir),
    decreases contracts.len(),
{
    if k == contracts.len() {
        assert(contracts.take(k) =~= contracts);
    } else {
        assert(contracts.drop_last().take(k) =~= contracts.take(k));
        lemma_gh_classes_err(contracts.drop_last(), k, ir);
    }
}

/// `acc` followed by one contract-id constant per host contract.
pub open spec fn ts_gh_ids(acc: Seq<char>, contracts: Seq<ResolvedHostContract>) -> Seq<char>
    decreases contracts.len(),
{
    if contracts.len() == 0 {
        acc
    } else {
        let c = contracts.last();
        ts_gh_ids(acc, contracts.drop_last()) + "/** Contract ID for `"@ + c.name@ + "` (FNV-1a of \"host_contract:"@ + c.name@ + "@"@
            + dec_digits(c.version.major as nat) + "\") */\n"@ + "export const "@ + upper_str(ts_host_caller(c.name@)) + "_ID"@
            + " = 0x"@ + hex_digits(c.contract_id as nat, 16) + "n;\n\n"@
    }
}

/// The guest-side host-contract callers file header.
pub const TS_GH_HEADER: &'static str = "// THIS FILE IS AUTO-GENERATED BY polyplugc\n// DO NOT EDIT BY HAND\n// Runtime: js-quickjs (guest-side callers)\n\n";

/// `guest/host_contracts.ts`: one caller class per host contract and their
/// contract-id constants.
#[verifier::opaque]
pub open spec fn js_guest_host_contracts_ts(ir: ValidatedIr) -> Result<Seq<char>, Seq<char>> {
    match ts_gh_classes(ir.host_contracts@, ir) {
        Err(e) => Err(e),
        Ok(cls) => Ok(
            ts_gh_ids(
                TS_GH_HEADER@ + ts_value_import(sort_unique(js_hc_type_names(ir.host_contracts@))) + TS_UTF8_ENCODER@ + cls
                    + "// Contract ID constants\n"@,
                ir.host_contracts@,
            ),
        ),
    }
}

fn gh_classes(ir: &ValidatedIr) -> (r: Result<String, crate::error::CodegenError>)
    ensures
        match r {
            Ok(s) => ts_gh_classes(ir.host_contracts@, *ir) == Ok::<Seq<char>, Seq<char>>(s@),
            Err(e) => ts_gh_classes(ir.host_contracts@, *ir) matches Err(n) && unsupported_is(e, n),
        },
{
    let mut cls: String = String::new();
    let n: usize = ir.host_contracts.len();
    let mut i: usize = 0;
    while i < n
        invariant
            n == ir.host_contracts@.len(),
            i <= n,
            ts_gh_classes(ir.host_contracts@.take(i as int), *ir) == Ok::<Seq<char>, Seq<char>>(cls@),
        decreases n - i,
    {
        assert(ir.host_contracts@.take(i + 1).drop_last() =~= ir.host_contracts@.take(i as int));
        assert(ir.host_contracts@.take(i + 1).last() == ir.host_contracts@[i as int]);
        match generate_ts_guest_host_contract_caller(&mut cls, &ir.host_contracts[i], ir) {
            Ok(_) => {},
            Err(e) => {
                proof {
                    lemma_gh_classes_err(ir.host_contracts@, i + 1, *ir);
                }
                return Err(e);
            },
        }
        i = i + 1;
    }
    assert(ir.host_contracts@.take(n as int) =~= ir.host_contracts@);
    Ok(cls)
}

fn push_gh_ids(out: &mut String, contracts: &Vec<ResolvedHostContract>)
    ensures
        final(out)@ == ts_gh_ids(old(out)@, contracts@),
{
    let ghost o1 = out@;
    let n: usize = contracts.len();
    let mut j: usize = 0;
    while j < n
        invariant
            n == contracts@.len(),
            j <= n,
            out@ == ts_gh_ids(o1, contracts@.take(j as int)),
        decreases n - j,
    {
        let c: &ResolvedHostContract = &contracts[j];
        let cls_name: String = host_contract_name_to_ts_caller(c.name.as_str());
        let const_name: String = to_uppercase(cls_name.as_str());
        out.append("/** Contract ID for `");
        out.append(c.name.as_str());
        out.append("` (FNV-1a of \"host_contract:");
        out.append(c.name.as_str());
        out.append("@");
        push_u32(out, c.version.major);
        out.append("\") */\n");
        out.append("export const ");
        out.append(const_name.as_str());
        out.append("_ID");
        out.append(" = 0x");
        push_hex16(out, c.contract_id);
        out.append("n;\n\n");
        assert(contracts@.take(j + 1).drop_last() =~= contracts@.take(j as int));
        j = j + 1;
    }
    assert(contracts@.take(n as int) =~= contracts@);
}

/// Generate `guest/host_contracts.ts`.
pub fn generate_guest_host_contracts_ts(ir: &ValidatedIr) -> (r: Result<String, crate::error::CodegenError>)
    ensures
        match r {
            Ok(s) => js_guest_host_contracts_ts(*ir) == Ok::<Seq<char>, Seq<char>>(s@),
            Err(e) => js_guest_host_contracts_ts(*ir) matches Err(n) && unsupported_is(e, n),
        },
{
    let cls: String = match gh_classes(ir) {
        Ok(c) => c,
        Err(e) => {
            proof {
                reveal(js_guest_host_contracts_ts);
            }
            return Err(e);
        },
    };
    let imports: Vec<String> = collect_ts_guest_host_contract_type_imports(ir);
    let mut out: String = String::new();
    out.append(TS_GH_HEADER);
    push_value_import(&mut out, &imports);
    emit_ts_utf8_encoder_helper(&mut out);
    out.append(cls.as_str());
    out.append("// Contract ID constants\n");
    push_gh_ids(&mut out, &ir.host_contracts);
    proof {
        reveal(js_guest_host_contracts_ts);
    }
    Ok(out)
}

/// The fields and constructor of a peer caller class, up to the name in the
/// doc comment of `resolve`.
pub const TS_PEER_FIELDS: &'static str = "    private _bridge: any;\n    private _hostPtr: { lo: number; hi: number };\n\n    private constructor(bridge: any, hostPtr: { lo: number; hi: number }) {\n        this._bridge = bridge;\n        this._hostPtr = hostPtr;\n    }\n\n    /**\n     * Verify the peer contract is reachable via the host.\n     * Returns a `";

/// The rest of the doc comment of `resolve`.
pub const TS_PEER_RESOLVE_DOC: &'static str = "` instance or `null` if not found.\n     *\n     * `bridge` and `hostPtr` are threaded in explicitly by the caller\n     * (the author factory captured them); no per-VM global is read.\n     */\n";

/// `acc` followed by the doc comment, constants, fields and `resolve` of a
/// peer caller class.
pub open spec fn ts_peer_class_head(acc: Seq<char>, c: ResolvedContract, minv: nat) -> Seq<char> {
    let cls = ts_peer_class(c.name@);
    let lo = hex_digits((c.contract_id as nat) % 4294967296, 8);
    let hi = hex_digits((c.contract_id as nat) / 4294967296, 8);
    acc + "/**\n * Peer caller for guest contract `"@ + c.name@ + "` (id=0x"@ + hex_digits(c.contract_id as nat, 16)
        + ")\n *\n* Dispatches through the host-mediated `callGuestMethod` bridge.\n* Uses per-call create+destroy (stateless contract model).\n* Stateful peers would require a retained instance-handle API.\n */\n"@
        + "export class "@ + cls + " {\n"@ + "    /** Contract ID for `"@ + c.name@ + "@"@ + dec_digits(c.version.major as nat)
        + "` (FNV-1a). */\n"@ + "    static readonly CONTRACT_ID_LO = 0x"@ + lo + ";\n"@ + "    static readonly CONTRACT_ID_HI = 0x"@ + hi
        + ";\n"@ + "    static readonly MIN_VERSION = "@ + dec_digits(minv) + ";\n\n"@ + TS_PEER_FIELDS@ + cls + TS_PEER_RESOLVE_DOC@
        + "    static resolve(bridge: any, hostPtr: { lo: number; hi: number }): "@ + cls + " | null {\n"@
        + "        if (!bridge || !bridge.findByContract) {\n            return null;\n        }\n"@
        + "        const handle = bridge.findByContract(0x"@ + lo + ", 0x"@ + hi + ", "@ + dec_digits(minv) + ");\n"@
        + "        if (handle === null || handle === undefined) {\n            return null;\n        }\n"@ + "        return new "@ + cls
        + "(bridge, hostPtr);\n"@ + "    }\n\n"@
}

#[verifier::rlimit(40)]
fn push_peer_class_head(out: &mut String, c: &ResolvedContract, minv: u32)
    ensures
        final(out)@ == ts_peer_class_head(old(out)@, *c, minv as nat),
{
    let cls: String = guest_contract_name_to_ts_peer(c.name.as_str());
    let lo: u64 = c.contract_id % 4294967296;
    let hi: u64 = c.contract_id / 4294967296;
    assert((lo as u32) as nat == (c.contract_id as nat) % 4294967296);
    assert((hi as u32) as nat == (c.contract_id as nat) / 4294967296);
    out.append("/**\n * Peer caller for guest contract `");
    out.append(c.name.as_str());
    out.append("` (id=0x");
    push_hex16(out, c.contract_id);
    out.append(
        ")\n *\n* Dispatches through the host-mediated `callGuestMethod` bridge.\n* Uses per-call create+destroy (stateless contract model).\n* Stateful peers would require a retained instance-handle API.\n */\n",
    );
    out.append("export class ");
    out.append(cls.as_str());
    out.append(" {\n");
    out.append("    /** Contract ID for `");
    out.append(c.name.as_str());
    out.append("@");
    push_u32(out, c.version.major);
    out.append("` (FNV-1a). */\n");
    out.append("    static readonly CONTRACT_ID_LO = 0x");
    crate::text::push_hex8(out, lo as u32);
    out.append(";\n");
    out.append("    static readonly CONTRACT_ID_HI = 0x");
    crate::text::push_hex8(out, hi as u32);
    out.append(";\n");
    out.append("    static readonly MIN_VERSION = ");
    push_u32(out, minv);
    out.append(";\n\n");
    out.append(TS_PEER_FIELDS);
    out.append(cls.as_str());
    out.append(TS_PEER_RESOLVE_DOC);
    out.append("    static resolve(bridge: any, hostPtr: { lo: number; hi: number }): ");
    out.append(cls.as_str());
    out.append(" | null {\n");
    out.append("        if (!bridge || !bridge.findByContract) {\n            return null;\n        }\n");
    out.append("        const handle = bridge.findByContract(0x");
    crate::text::push_hex8(out, lo as u32);
    out.append(", 0x");
    crate::text::push_hex8(out, hi as u32);
    out.append(", ");
    push_u32(out, minv);
    out.append(");\n");
    out.append("        if (handle === null || handle === undefined) {\n            return null;\n        }\n");
    out.append("        return new ");
    out.append(cls.as_str());
    out.append("(bridge, hostPtr);\n");
    out.append("    }\n\n");
}

/// A peer caller class for one guest contract.
pub open spec fn ts_peer_caller_class(c: ResolvedContract, minv: nat, ir: ValidatedIr) -> Result<Seq<char>, Seq<char>> {
    match ts_caller_methods(
        c.functions@,
        (c.contract_id as nat) % 4294967296,
        (c.contract_id as nat) / 4294967296,
        true,
        minv,
        ir,
    ) {
        Err(e) => Err(e),
        Ok(m) => Ok(ts_peer_class_head(Seq::<char>::empty(), c, minv) + m + "}\n\n"@),
    }
}

/// Generate one `<Name>Peer` class for a peer contract; on an error `out` is
/// left unchanged.
pub fn generate_ts_peer_caller_class(out: &mut String, contract: &ResolvedContract, min_version: u32, ir: &ValidatedIr) -> (r: Result<
    (),
    crate::error::CodegenError,
>)
    ensures
        match r {
            Ok(_) => ts_peer_caller_class(*contract, min_version as nat, *ir) matches Ok(t) && final(out)@ == old(out)@ + t,
            Err(e) => ts_peer_caller_class(*contract, min_version as nat, *ir) matches Err(n) && unsupported_is(e, n) && final(out)@
                == old(out)@,
        },
{
    let lo: u64 = contract.contract_id % 4294967296;
    let hi: u64 = contract.contract_id / 4294967296;
    let m: String = match caller_methods(&contract.functions, lo as u32, hi as u32, true, min_version, ir) {
        Ok(m) => m,
        Err(e) => {
            return Err(e);
        },
    };
    let mut t: String = String::new();
    push_peer_class_head(&mut t, contract, min_version);
    t.append(m.as_str());
    t.append("}\n\n");
    out.append(t.as_str());
    Ok(())
}

/// The user type names of every peer contract's functions.
pub open spec fn js_peer_type_names(peers: Seq<ResolvedContract>) -> Seq<Seq<char>>
    decreases peers.len(),
{
    if peers.len() == 0 {
        Seq::<Seq<char>>::empty()
    } else {
        js_peer_type_names(peers.drop_last()) + js_func_type_names(peers.last().functions@)
    }
}

/// Every peer caller class, each with the minimum version its dependency
/// declares.
pub open spec fn ts_peer_classes(peers: Seq<ResolvedContract>, ir: ValidatedIr) -> Result<Seq<char>, Seq<char>>
    decreases peers.len(),
{
    if peers.len() == 0 {
        Ok(Seq::<char>::empty())
    } else {
        match ts_peer_classes(peers.drop_last(), ir) {
            Err(e) => Err(e),
            Ok(p) => match ts_peer_caller_class(
                peers.last(),
                min_version_for(bundle_dependencies(&ir), peers.last().contract_id) as nat,
                ir,
            ) {
                Err(e) => Err(e),
                Ok(c) => Ok(p + c),
            },
        }
    }
}

proof fn lemma_peer_classes_err(peers: Seq<ResolvedContract>, k: int, ir: ValidatedIr)
    requires
        0 <= k <= peers.len(),
        ts_peer_classes(peers.take(k), ir) is Err,
    ensures
        ts_peer_classes(peers, ir) == ts_peer_classes(peers.take(k), ir),
    decreases peers.len(),
{
    if k == peers.len() {
        assert(peers.take(k) =~= peers);
    } else {
        assert(peers.drop_last().take(k) =~= peers.take(k));
        lemma_peer_classes_err(peers.drop_last(), k, ir);
    }
}

/// The peer callers file header.
pub const TS_PEER_HEADER: &'static str = "// THIS FILE IS AUTO-GENERATED BY polyplugc\n// DO NOT EDIT BY HAND\n// Runtime: js-quickjs (guest-side peer callers)\n\n";

/// `guest/peer_callers.ts`: one peer class per matched dependency.
#[verifier::opaque]
pub open spec fn js_guest_peer_callers_ts(ir: ValidatedIr, peers: Seq<ResolvedContract>) -> Result<Seq<char>, Seq<char>> {
    match ts_peer_classes(peers, ir) {
        Err(e) => Err(e),
        Ok(cls) => Ok(TS_PEER_HEADER@ + ts_value_import(sort_unique(js_peer_type_names(peers))) + TS_UTF8_ENCODER@ + cls),
    }
}

/// Generate `guest/peer_callers.ts`.
pub fn generate_guest_peer_callers_ts(ir: &ValidatedIr, peers: &[&ResolvedContract]) -> (r: Result<String, crate::error::CodegenError>)
    ensures
        match r {
            Ok(s) => js_guest_peer_callers_ts(*ir, derefs(peers@)) == Ok::<Seq<char>, Seq<char>>(s@),
            Err(e) => js_guest_peer_callers_ts(*ir, derefs(peers@)) matches Err(n) && unsupported_is(e, n),
        },
{
    let ghost ps = derefs(peers@);
    let n: usize = peers.len();
    let mut names: Vec<String> = Vec::new();
    let mut cls: String = String::new();
    let mut i: usize = 0;
    while i < n
        invariant
            n == peers@.len(),
            ps == derefs(peers@),
            i <= n,
            views(names@) == js_peer_type_names(ps.take(i as int)),
            ts_peer_classes(ps.take(i as int), *ir) == Ok::<Seq<char>, Seq<char>>(cls@),
        decreases n - i,
    {
        let c: &ResolvedContract = peers[i];
        assert(ps.take(i + 1).drop_last() =~= ps.take(i as int));
        assert(ps.take(i + 1).last() == ps[i as int]);
        assert(ps[i as int] == *c);
        collect_func_type_names(&mut names, &c.functions);
        let min_ver: u32 = crate::generators::peer_min_version(ir, c.contract_id);
        match generate_ts_peer_caller_class(&mut cls, c, min_ver, ir) {
            Ok(_) => {},
            Err(e) => {
                proof {
                    lemma_peer_classes_err(ps, i + 1, *ir);
                }
                proof {
                    reveal(js_guest_peer_callers_ts);
                }
                return Err(e);
            },
        }
        i = i + 1;
    }
    assert(ps.take(n as int) =~= ps);
    let sorted: Vec<String> = sort_dedup(names);
    let mut out: String = String::new();
    out.append(TS_PEER_HEADER);
    push_value_import(&mut out, &sorted);
    emit_ts_utf8_encoder_helper(&mut out);
    out.append(cls.as_str());
    proof {
        reveal(js_guest_peer_callers_ts);
    }
    Ok(out)
}

// ─── Deno host callers ──────────────────────────────────────────────────────

/// The ergonomic TypeScript type of a Deno host-caller value: enums as
/// `number`, 64-bit values as `bigint`, structs as inline object types.
pub open spec fn deno_ts(ty: ResolvedTypeRef, ir: ValidatedIr, fuel: nat) -> Result<Seq<char>, Seq<char>>
    decreases fuel, 0nat,
{
    match ty {
        ResolvedTypeRef::Primitive(p) => Ok(
            match p {
                PrimitiveType::Bool => "boolean"@,
                PrimitiveType::U64 | PrimitiveType::I64 => "bigint"@,
                _ => "number"@,
            },
        ),
        ResolvedTypeRef::AbiType(AbiBuiltin::StringView) => Ok("string"@),
        ResolvedTypeRef::AbiType(AbiBuiltin::Buffer) => Ok("Uint8Array"@),
        ResolvedTypeRef::AbiType(AbiBuiltin::Ptr) => Ok("bigint"@),
        ResolvedTypeRef::AbiType(AbiBuiltin::Void) => Ok("void"@),
        ResolvedTypeRef::UserDefined(name) => match find_enum(ir.enums@, name@) {
            Some(_) => Ok("number"@),
            None => match find_type(ir.types@, name@) {
                Some(s) => if fuel == 0 {
                    Err(name@)
                } else {
                    match deno_ts_fields(s.fields@, ir, (fuel - 1) as nat) {
                        Err(e) => Err(e),
                        Ok(f) => Ok("{ "@ + f + " }"@),
                    }
                },
                None => Err(name@),
            },
        },
    }
}

/// `name: type` for every field, joined with `"; "`.
pub open spec fn deno_ts_fields(fs: Seq<ResolvedField>, ir: ValidatedIr, fuel: nat) -> Result<Seq<char>, Seq<char>>
    decreases fuel, fs.len() + 1,
{
    if fs.len() == 0 {
        Ok(Seq::<char>::empty())
    } else {
        match deno_ts_fields(fs.drop_last(), ir, fuel) {
            Err(e) => Err(e),
            Ok(p) => match deno_ts(fs.last().ty, ir, fuel) {
                Err(e) => Err(e),
                Ok(t) => {
                    let item = fs.last().name@ + ": "@ + t;
                    Ok(
                        if fs.len() == 1 {
                            item
                        } else {
                            p + "; "@ + item
                        },
                    )
                },
            },
        }
    }
}

proof fn lemma_deno_ts_fields_err(fs: Seq<ResolvedField>, k: int, ir: ValidatedIr, fuel: nat)
    requires
        0 <= k <= fs.len(),
        deno_ts_fields(fs.take(k), ir, fuel) is Err,
    ensures
        deno_ts_fields(fs, ir, fuel) == deno_ts_fields(fs.take(k), ir, fuel),
    decreases fs.len(),
{
    if k == fs.len() {
        assert(fs.take(k) =~= fs);
    } else {
        assert(fs.drop_last().take(k) =~= fs.take(k));
        lemma_deno_ts_fields_err(fs.drop_last(), k, ir, fuel);
    }
}

fn deno_ts_fuel(ty: &ResolvedTypeRef, ir: &ValidatedIr, fuel: usize) -> (r: Result<String, crate::error::CodegenError>)
    ensures
        match r {
            Ok(s) => deno_ts(*ty, *ir, fuel as nat) == Ok::<Seq<char>, Seq<char>>(s@),
            Err(e) => deno_ts(*ty, *ir, fuel as nat) matches Err(n) && unsupported_is(e, n),
        },
    decreases fuel,
{
    match ty {
        ResolvedTypeRef::Primitive(p) => Ok(
            match p {
                PrimitiveType::Bool => "boolean".to_owned(),
                PrimitiveType::U64 | PrimitiveType::I64 => "bigint".to_owned(),
                _ => "number".to_owned(),
            },
        ),
        ResolvedTypeRef::AbiType(AbiBuiltin::StringView) => Ok("string".to_owned()),
        ResolvedTypeRef::AbiType(AbiBuiltin::Buffer) => Ok("Uint8Array".to_owned()),
        ResolvedTypeRef::AbiType(AbiBuiltin::Ptr) => Ok("bigint".to_owned()),
        ResolvedTypeRef::AbiType(AbiBuiltin::Void) => Ok("void".to_owned()),
        ResolvedTypeRef::UserDefined(name) => {
            if js_enum_for_type(ty, ir.enums.as_slice()).is_some() {
                return Ok("number".to_owned());
            }
            match js_struct_for_type(ty, ir.types.as_slice()) {
                Some(s) => {
                    if fuel == 0 {
                        return Err(unsupported(name.as_str()));
                    }
                    let ghost fs = s.fields@;
                    let mut acc: String = String::new();
                    let n: usize = s.fields.len();
                    let mut i: usize = 0;
                    while i < n
                        invariant
                            n == fs.len(),
                            fs == s.fields@,
                            i <= n,
                            0 < fuel,
                            *ty == ResolvedTypeRef::UserDefined(*name),
                            find_enum(ir.enums@, name@) is None,
                            find_type(ir.types@, name@) == Some(*s),
                            deno_ts_fields(fs.take(i as int), *ir, (fuel - 1) as nat) == Ok::<Seq<char>, Seq<char>>(acc@),
                        decreases n - i,
                    {
                        assert(fs.take(i + 1).drop_last() =~= fs.take(i as int));
                        assert(fs.take(i + 1).last() == s.fields@[i as int]);
                        let t: String = match deno_ts_fuel(&s.fields[i].ty, ir, fuel - 1) {
                            Ok(t) => t,
                            Err(e) => {
                                proof {
                                    lemma_deno_ts_fields_err(fs, i + 1, *ir, (fuel - 1) as nat);
                                }
                                return Err(e);
                            },
                        };
                        let ghost prev = acc@;
                        if i > 0 {
                            acc.append("; ");
                        }
                        acc.append(s.fields[i].name.as_str());
                        acc.append(": ");
                        acc.append(t.as_str());
                        proof {
                            let item = s.fields@[i as int].name@ + ": "@ + t@;
                            if i == 0 {
                                assert(acc@ =~= item);
                            } else {
                                assert(acc@ =~= prev + "; "@ + item);
                            }
                        }
                        i = i + 1;
                    }
                    assert(fs.take(n as int) =~= fs);
                    let mut r: String = "{ ".to_owned();
                    r.append(acc.as_str());
                    r.append(" }");
                    Ok(r)
                },
                None => Err(unsupported(name.as_str())),
            }
        },
    }
}

/// The ergonomic TypeScript type of a Deno host-caller parameter or return.
pub fn deno_caller_ts_type(ty: &ResolvedTypeRef, ir: &ValidatedIr) -> (r: Result<String, crate::error::CodegenError>)
    ensures
        match r {
            Ok(s) => deno_ts(*ty, *ir, layout_fuel(*ir)) == Ok::<Seq<char>, Seq<char>>(s@),
            Err(e) => deno_ts(*ty, *ir, layout_fuel(*ir)) matches Err(n) && unsupported_is(e, n),
        },
{
    deno_ts_fuel(ty, ir, ir.types.len())
}

/// `        <dv>.<f>(<off>, <arg>);`
pub open spec fn dset(dv: Seq<char>, f: Seq<char>, off: nat, arg: Seq<char>) -> Seq<char> {
    "        "@ + dv + "."@ + f + "("@ + dec_digits(off) + ", "@ + arg + ");\n"@
}

fn push_dset(out: &mut String, dv: &str, f: &str, off: usize, delta: u8, arg: &str)
    ensures
        final(out)@ == old(out)@ + dset(dv@, f@, off as nat + delta as nat, arg@),
{
    out.append("        ");
    out.append(dv);
    out.append(".");
    out.append(f);
    out.append("(");
    crate::text::push_u128(out, off as u128 + delta as u128);
    out.append(", ");
    out.append(arg);
    out.append(");\n");
}

/// The Deno write of a primitive held in `v`.
pub open spec fn deno_write_prim(p: PrimitiveType, dv: Seq<char>, off: nat, v: Seq<char>) -> Seq<char> {
    match p {
        PrimitiveType::U8 => dset(dv, "setUint8"@, off, "Number("@ + v + ") & 0xFF"@),
        PrimitiveType::I8 => dset(dv, "setInt8"@, off, "Number("@ + v + ")"@),
        PrimitiveType::U16 => dset(dv, "setUint16"@, off, "Number("@ + v + ") & 0xFFFF, true"@),
        PrimitiveType::I16 => dset(dv, "setInt16"@, off, "Number("@ + v + "), true"@),
        PrimitiveType::U32 => dset(dv, "setUint32"@, off, "Number("@ + v + ") >>> 0, true"@),
        PrimitiveType::I32 => dset(dv, "setInt32"@, off, "Number("@ + v + ") | 0, true"@),
        PrimitiveType::F32 => dset(dv, "setFloat32"@, off, "Number("@ + v + "), true"@),
        PrimitiveType::F64 => dset(dv, "setFloat64"@, off, "Number("@ + v + "), true"@),
        PrimitiveType::Bool => dset(dv, "setUint8"@, off, v + " ? 1 : 0"@),
        PrimitiveType::U64 => dset(dv, "setBigUint64"@, off, "BigInt("@ + v + "), true"@),
        PrimitiveType::I64 => dset(dv, "setBigInt64"@, off, "BigInt("@ + v + "), true"@),
    }
}

/// The Deno write of an enum's repr integer held in `v` (unsigned).
pub open spec fn deno_write_repr(r: ReprType, dv: Seq<char>, off: nat, v: Seq<char>) -> Seq<char> {
    match r {
        ReprType::U8 => dset(dv, "setUint8"@, off, "Number("@ + v + ") & 0xFF"@),
        ReprType::U16 => dset(dv, "setUint16"@, off, "Number("@ + v + ") & 0xFFFF, true"@),
        ReprType::U32 => dset(dv, "setUint32"@, off, "Number("@ + v + ") >>> 0, true"@),
        ReprType::U64 => dset(dv, "setBigUint64"@, off, "BigInt("@ + v + "), true"@),
    }
}

/// `acc` followed by the host allocation of a string payload (temporaries
/// `_sv<n>…`), its copy, the `{ ptr, len }` slot at `off` and the record of
/// the allocation.
pub open spec fn deno_sv_write(acc: Seq<char>, dv: Seq<char>, off: nat, v: Seq<char>, n: nat) -> Seq<char> {
    let s = "_sv"@ + dec_digits(n);
    acc + "        const "@ + s + "Bytes = _encoder.encode("@ + v + ");\n"@ + "        const "@ + s + "Alloc = "@ + s + "Bytes.length > 0 ? "@ + s
        + "Bytes.length : 1;\n"@ + "        const "@ + s + "Ptr = rt.alloc("@ + s + "Alloc, 1);\n"@ + "        if ("@ + s
        + "Ptr === null) { throw new Error('host_alloc failed'); }\n"@ + "        if ("@ + s
        + "Bytes.length > 0) { new Uint8Array(Deno.UnsafePointerView.getArrayBuffer("@ + s + "Ptr, "@ + s + "Bytes.length)).set("@ + s
        + "Bytes); }\n"@ + dset(dv, "setBigUint64"@, off, "BigInt(Deno.UnsafePointer.value("@ + s + "Ptr)), true"@) + dset(
        dv,
        "setBigUint64"@,
        off + 8,
        "BigInt("@ + s + "Bytes.length), true"@,
    ) + "        _allocs.push(["@ + s + "Ptr, "@ + s + "Alloc]);\n"@
}

/// Emit the host-allocated StringView write of `value` at `off`; `idx`
/// numbers the temporaries (wrapping at `u32`).
pub fn emit_deno_write_stringview(out: &mut String, dv: &str, off: usize, value: &str, idx: &mut u32)
    ensures
        final(out)@ == deno_sv_write(old(out)@, dv@, off as nat, value@, *old(idx) as nat),
        *final(idx) as nat == next_idx(*old(idx) as nat),
{
    let mut s: String = "_sv".to_owned();
    push_u32(&mut s, *idx);
    *idx = idx.wrapping_add(1);
    let s: &str = s.as_str();
    out.append("        const ");
    out.append(s);
    out.append("Bytes = _encoder.encode(");
    out.append(value);
    out.append(");\n");
    out.append("        const ");
    out.append(s);
    out.append("Alloc = ");
    out.append(s);
    out.append("Bytes.length > 0 ? ");
    out.append(s);
    out.append("Bytes.length : 1;\n");
    out.append("        const ");
    out.append(s);
    out.append("Ptr = rt.alloc(");
    out.append(s);
    out.append("Alloc, 1);\n");
    out.append("        if (");
    out.append(s);
    out.append("Ptr === null) { throw new Error('host_alloc failed'); }\n");
    out.append("        if (");
    out.append(s);
    out.append("Bytes.length > 0) { new Uint8Array(Deno.UnsafePointerView.getArrayBuffer(");
    out.append(s);
    out.append("Ptr, ");
    out.append(s);
    out.append("Bytes.length)).set(");
    out.append(s);
    out.append("Bytes); }\n");
    push_dset(out, dv, "setBigUint64", off, 0, cat3("BigInt(Deno.UnsafePointer.value(", s, "Ptr)), true").as_str());
    push_dset(out, dv, "setBigUint64", off, 8, cat3("BigInt(", s, "Bytes.length), true").as_str());
    out.append("        _allocs.push([");
    out.append(s);
    out.append("Ptr, ");
    out.append(s);
    out.append("Alloc]);\n");
}

/// `acc` followed by the host allocation of a byte-array payload
/// (temporaries `_bf<n>…`), its copy, the `{ ptr, len, cap }` slot at `off`
/// and the record of the allocation.
pub open spec fn deno_buf_write(acc: Seq<char>, dv: Seq<char>, off: nat, v: Seq<char>, n: nat) -> Seq<char> {
    let s = "_bf"@ + dec_digits(n);
    acc + "        const "@ + s + "Data = "@ + v + ";\n"@ + "        const "@ + s + "Alloc = "@ + s + "Data.length > 0 ? "@ + s
        + "Data.length : 1;\n"@ + "        const "@ + s + "Ptr = rt.alloc("@ + s + "Alloc, 1);\n"@ + "        if ("@ + s
        + "Ptr === null) { throw new Error('host_alloc failed'); }\n"@ + "        if ("@ + s
        + "Data.length > 0) { new Uint8Array(Deno.UnsafePointerView.getArrayBuffer("@ + s + "Ptr, "@ + s + "Data.length)).set("@ + s
        + "Data); }\n"@ + dset(dv, "setBigUint64"@, off, "BigInt(Deno.UnsafePointer.value("@ + s + "Ptr)), true"@) + dset(
        dv,
        "setBigUint64"@,
        off + 8,
        "BigInt("@ + s + "Data.length), true"@,
    ) + dset(dv, "setBigUint64"@, off + 16, "BigInt("@ + s + "Data.length), true"@) + "        _allocs.push(["@ + s + "Ptr, "@ + s
        + "Alloc]);\n"@
}

/// Emit the host-allocated Buffer write of `value` at `off`; `idx` numbers
/// the temporaries (wrapping at `u32`).
pub fn emit_deno_write_buffer(out: &mut String, dv: &str, off: usize, value: &str, idx: &mut u32)
    ensures
        final(out)@ == deno_buf_write(old(out)@, dv@, off as nat, value@, *old(idx) as nat),
        *final(idx) as nat == next_idx(*old(idx) as nat),
{
    let mut s: String = "_bf".to_owned();
    push_u32(&mut s, *idx);
    *idx = idx.wrapping_add(1);
    let s: &str = s.as_str();
    out.append("        const ");
    out.append(s);
    out.append("Data = ");
    out.append(value);
    out.append(";\n");
    out.append("        const ");
    out.append(s);
    out.append("Alloc = ");
    out.append(s);
    out.append("Data.length > 0 ? ");
    out.append(s);
    out.append("Data.length : 1;\n");
    out.append("        const ");
    out.append(s);
    out.append("Ptr = rt.alloc(");
    out.append(s);
    out.append("Alloc, 1);\n");
    out.append("        if (");
    out.append(s);
    out.append("Ptr === null) { throw new Error('host_alloc failed'); }\n");
    out.append("        if (");
    out.append(s);
    out.append("Data.length > 0) { new Uint8Array(Deno.UnsafePointerView.getArrayBuffer(");
    out.append(s);
    out.append("Ptr, ");
    out.append(s);
    out.append("Data.length)).set(");
    out.append(s);
    out.append("Data); }\n");
    push_dset(out, dv, "setBigUint64", off, 0, cat3("BigInt(Deno.UnsafePointer.value(", s, "Ptr)), true").as_str());
    push_dset(out, dv, "setBigUint64", off, 8, cat3("BigInt(", s, "Data.length), true").as_str());
    push_dset(out, dv, "setBigUint64", off, 16, cat3("BigInt(", s, "Data.length), true").as_str());
    out.append("        _allocs.push([");
    out.append(s);
    out.append("Ptr, ");
    out.append(s);
    out.append("Alloc]);\n");
}

/// The Deno write of the value `v` of `ty` into `dv` at `off`: payloads are
/// host-allocated under the counter `k`, structs recurse field by field.
pub open spec fn deno_write(ty: ResolvedTypeRef, dv: Seq<char>, off: nat, v: Seq<char>, ir: ValidatedIr, k: nat, fuel: nat) -> Result<
    (Seq<char>, nat),
    Seq<char>,
>
    decreases fuel, 0nat,
{
    match ty {
        ResolvedTypeRef::Primitive(p) => Ok((deno_write_prim(p, dv, off, v), k)),
        ResolvedTypeRef::AbiType(AbiBuiltin::Ptr) => Ok((dset(dv, "setBigUint64"@, off, "BigInt("@ + v + "), true"@), k)),
        ResolvedTypeRef::AbiType(AbiBuiltin::StringView) => Ok((deno_sv_write(Seq::<char>::empty(), dv, off, v, k), next_idx(k))),
        ResolvedTypeRef::AbiType(AbiBuiltin::Buffer) => Ok((deno_buf_write(Seq::<char>::empty(), dv, off, v, k), next_idx(k))),
        ResolvedTypeRef::AbiType(AbiBuiltin::Void) => Ok((Seq::<char>::empty(), k)),
        ResolvedTypeRef::UserDefined(name) => match find_enum(ir.enums@, name@) {
            Some(e) => Ok((deno_write_repr(e.repr, dv, off, v), k)),
            None => match find_type(ir.types@, name@) {
                Some(s) => if fuel == 0 {
                    Err(name@)
                } else {
                    match deno_write_fields(s.fields@, dv, off, v, name@, ir, k, (fuel - 1) as nat) {
                        Err(e) => Err(e),
                        Ok(r) => Ok((r.0, r.2)),
                    }
                },
                None => Err(name@),
            },
        },
    }
}

/// The Deno writes of every field `v.<name>` at its C-layout offset from
/// `off`; the text, the end offset and the counter.
pub open spec fn deno_write_fields(
    fs: Seq<ResolvedField>,
    dv: Seq<char>,
    off: nat,
    v: Seq<char>,
    sname: Seq<char>,
    ir: ValidatedIr,
    k: nat,
    fuel: nat,
) -> Result<(Seq<char>, nat, nat), Seq<char>>
    decreases fuel, fs.len() + 1,
{
    if fs.len() == 0 {
        Ok((Seq::<char>::empty(), off, k))
    } else {
        match deno_write_fields(fs.drop_last(), dv, off, v, sname, ir, k, fuel) {
            Err(e) => Err(e),
            Ok(prev) => match js_align(fs.last().ty, ir.types@, ir.enums@, layout_fuel(ir)) {
                Err(e) => Err(e),
                Ok(a) => {
                    let o = align_to(prev.1, a);
                    if !fits(o) {
                        Err(sname)
                    } else {
                        match deno_write(fs.last().ty, dv, o, v + "."@ + fs.last().name@, ir, prev.2, fuel) {
                            Err(e) => Err(e),
                            Ok(x) => match js_size(fs.last().ty, ir.types@, ir.enums@, layout_fuel(ir)) {
                                Err(e) => Err(e),
                                Ok(sz) => if fits(o + sz) {
                                    Ok((prev.0 + x.0, o + sz, x.1))
                                } else {
                                    Err(sname)
                                },
                            },
                        }
                    }
                },
            },
        }
    }
}

proof fn lemma_deno_write_fields_err(
    fs: Seq<ResolvedField>,
    j: int,
    dv: Seq<char>,
    off: nat,
    v: Seq<char>,
    sname: Seq<char>,
    ir: ValidatedIr,
    k: nat,
    fuel: nat,
)
    requires
        0 <= j <= fs.len(),
        deno_write_fields(fs.take(j), dv, off, v, sname, ir, k, fuel) is Err,
    ensures
        deno_write_fields(fs, dv, off, v, sname, ir, k, fuel) == deno_write_fields(fs.take(j), dv, off, v, sname, ir, k, fuel),
    decreases fs.len(),
{
    if j == fs.len() {
        assert(fs.take(j) =~= fs);
    } else {
        assert(fs.drop_last().take(j) =~= fs.take(j));
        lemma_deno_write_fields_err(fs.drop_last(), j, dv, off, v, sname, ir, k, fuel);
    }
}

#[verifier::rlimit(60)]
fn deno_write_fuel(
    out: &mut String,
    ty: &ResolvedTypeRef,
    dv: &str,
    off: usize,
    value: &str,
    ir: &ValidatedIr,
    idx: &mut u32,
    fuel: usize,
) -> (r: Result<(), crate::error::CodegenError>)
    ensures
        match r {
            Ok(_) => deno_write(*ty, dv@, off as nat, value@, *ir, *old(idx) as nat, fuel as nat) matches Ok(p)
                && final(out)@ == old(out)@ + p.0 && *final(idx) as nat == p.1,
            Err(e) => deno_write(*ty, dv@, off as nat, value@, *ir, *old(idx) as nat, fuel as nat) matches Err(n) && unsupported_is(e, n),
        },
    decreases fuel, 1nat,
{
    let mut t: String = String::new();
    match ty {
        ResolvedTypeRef::Primitive(p) => {
            match p {
                PrimitiveType::U8 => push_dset(&mut t, dv, "setUint8", off, 0, cat3("Number(", value, ") & 0xFF").as_str()),
                PrimitiveType::I8 => push_dset(&mut t, dv, "setInt8", off, 0, cat3("Number(", value, ")").as_str()),
                PrimitiveType::U16 => push_dset(&mut t, dv, "setUint16", off, 0, cat3("Number(", value, ") & 0xFFFF, true").as_str()),
                PrimitiveType::I16 => push_dset(&mut t, dv, "setInt16", off, 0, cat3("Number(", value, "), true").as_str()),
                PrimitiveType::U32 => push_dset(&mut t, dv, "setUint32", off, 0, cat3("Number(", value, ") >>> 0, true").as_str()),
                PrimitiveType::I32 => push_dset(&mut t, dv, "setInt32", off, 0, cat3("Number(", value, ") | 0, true").as_str()),
                PrimitiveType::F32 => push_dset(&mut t, dv, "setFloat32", off, 0, cat3("Number(", value, "), true").as_str()),
                PrimitiveType::F64 => push_dset(&mut t, dv, "setFloat64", off, 0, cat3("Number(", value, "), true").as_str()),
                PrimitiveType::Bool => push_dset(&mut t, dv, "setUint8", off, 0, cat2(value, " ? 1 : 0").as_str()),
                PrimitiveType::U64 => push_dset(&mut t, dv, "setBigUint64", off, 0, cat3("BigInt(", value, "), true").as_str()),
                PrimitiveType::I64 => push_dset(&mut t, dv, "setBigInt64", off, 0, cat3("BigInt(", value, "), true").as_str()),
            }
            assert(t@ =~= deno_write_prim(*p, dv@, off as nat, value@));
        },
        ResolvedTypeRef::AbiType(AbiBuiltin::Ptr) => {
            push_dset(&mut t, dv, "setBigUint64", off, 0, cat3("BigInt(", value, "), true").as_str());
            assert(t@ =~= dset(dv@, "setBigUint64"@, off as nat, "BigInt("@ + value@ + "), true"@));
        },
        ResolvedTypeRef::AbiType(AbiBuiltin::StringView) => emit_deno_write_stringview(&mut t, dv, off, value, idx),
        ResolvedTypeRef::AbiType(AbiBuiltin::Buffer) => emit_deno_write_buffer(&mut t, dv, off, value, idx),
        ResolvedTypeRef::AbiType(AbiBuiltin::Void) => {},
        ResolvedTypeRef::UserDefined(name) => {
            match js_enum_for_type(ty, ir.enums.as_slice()) {
                Some(e) => {
                    match e.repr {
                        ReprType::U8 => push_dset(&mut t, dv, "setUint8", off, 0, cat3("Number(", value, ") & 0xFF").as_str()),
                        ReprType::U16 => push_dset(&mut t, dv, "setUint16", off, 0, cat3("Number(", value, ") & 0xFFFF, true").as_str()),
                        ReprType::U32 => push_dset(&mut t, dv, "setUint32", off, 0, cat3("Number(", value, ") >>> 0, true").as_str()),
                        ReprType::U64 => push_dset(&mut t, dv, "setBigUint64", off, 0, cat3("BigInt(", value, "), true").as_str()),
                    }
                    assert(t@ =~= deno_write_repr(e.repr, dv@, off as nat, value@));
                },
                None => match js_struct_for_type(ty, ir.types.as_slice()) {
                    Some(s) => {
                        if fuel == 0 {
                            return Err(unsupported(name.as_str()));
                        }
                        match deno_write_struct(s, name.as_str(), dv, off, value, ir, idx, fuel - 1) {
                            Ok(w) => {
                                t = w;
                            },
                            Err(e) => {
                                return Err(e);
                            },
                        }
                    },
                    None => {
                        return Err(unsupported(name.as_str()));
                    },
                },
            }
        },
    }
    out.append(t.as_str());
    Ok(())
}

fn deno_write_struct(
    s: &ResolvedType,
    sname: &str,
    dv: &str,
    off: usize,
    value: &str,
    ir: &ValidatedIr,
    idx: &mut u32,
    fuel: usize,
) -> (r: Result<String, crate::error::CodegenError>)
    ensures
        match r {
            Ok(t) => deno_write_fields(s.fields@, dv@, off as nat, value@, sname@, *ir, *old(idx) as nat, fuel as nat) matches Ok(p)
                && t@ == p.0 && *final(idx) as nat == p.2,
            Err(e) => deno_write_fields(s.fields@, dv@, off as nat, value@, sname@, *ir, *old(idx) as nat, fuel as nat) matches Err(n)
                && unsupported_is(e, n),
        },
    decreases fuel, 2nat,
{
    let ghost fs = s.fields@;
    let ghost k0: nat = *idx as nat;
    let mut acc: String = String::new();
    let mut field_off: usize = off;
    let n: usize = s.fields.len();
    let mut i: usize = 0;
    while i < n
        invariant
            n == fs.len(),
            fs == s.fields@,
            i <= n,
            k0 == *old(idx) as nat,
            deno_write_fields(fs.take(i as int), dv@, off as nat, value@, sname@, *ir, k0, fuel as nat) == Ok::<
                (Seq<char>, nat, nat),
                Seq<char>,
            >((acc@, field_off as nat, *idx as nat)),
        decreases n - i,
    {
        assert(fs.take(i + 1).drop_last() =~= fs.take(i as int));
        assert(fs.take(i + 1).last() == s.fields@[i as int]);
        let fty: &ResolvedTypeRef = &s.fields[i].ty;
        let a: usize = match js_c_align(fty, ir) {
            Ok(a) => a,
            Err(e) => {
                proof {
                    lemma_deno_write_fields_err(fs, i + 1, dv@, off as nat, value@, sname@, *ir, k0, fuel as nat);
                }
                return Err(e);
            },
        };
        let o: usize = match align_up_checked(field_off, a) {
            Some(o) => o,
            None => {
                proof {
                    lemma_deno_write_fields_err(fs, i + 1, dv@, off as nat, value@, sname@, *ir, k0, fuel as nat);
                }
                return Err(unsupported(sname));
            },
        };
        let fv: String = cat3(value, ".", s.fields[i].name.as_str());
        match deno_write_fuel(&mut acc, fty, dv, o, fv.as_str(), ir, idx, fuel) {
            Ok(_) => {},
            Err(e) => {
                proof {
                    lemma_deno_write_fields_err(fs, i + 1, dv@, off as nat, value@, sname@, *ir, k0, fuel as nat);
                }
                return Err(e);
            },
        }
        let sz: usize = match js_c_size(fty, ir) {
            Ok(sz) => sz,
            Err(e) => {
                proof {
                    lemma_deno_write_fields_err(fs, i + 1, dv@, off as nat, value@, sname@, *ir, k0, fuel as nat);
                }
                return Err(e);
            },
        };
        field_off = match o.checked_add(sz) {
            Some(w) => w,
            None => {
                proof {
                    lemma_deno_write_fields_err(fs, i + 1, dv@, off as nat, value@, sname@, *ir, k0, fuel as nat);
                }
                return Err(unsupported(sname));
            },
        };
        i = i + 1;
    }
    assert(fs.take(n as int) =~= fs);
    Ok(acc)
}

/// Emit the Deno write of `value` (a JS expression of `ty`'s ergonomic shape)
/// into `dv` at `off`; `alloc_idx` numbers the payload temporaries.
pub fn emit_deno_write_value(
    out: &mut String,
    ty: &ResolvedTypeRef,
    dv: &str,
    off: usize,
    value: &str,
    ir: &ValidatedIr,
    alloc_idx: &mut u32,
) -> (r: Result<(), crate::error::CodegenError>)
    ensures
        match r {
            Ok(_) => deno_write(*ty, dv@, off as nat, value@, *ir, *old(alloc_idx) as nat, layout_fuel(*ir)) matches Ok(p)
                && final(out)@ == old(out)@ + p.0 && *final(alloc_idx) as nat == p.1,
            Err(e) => deno_write(*ty, dv@, off as nat, value@, *ir, *old(alloc_idx) as nat, layout_fuel(*ir)) matches Err(n)
                && unsupported_is(e, n),
        },
{
    deno_write_fuel(out, ty, dv, off, value, ir, alloc_idx, ir.types.len())
}

/// `<dv>.<f>(<off>[, true])`.
pub open spec fn dget(dv: Seq<char>, f: Seq<char>, off: nat, le: bool) -> Seq<char> {
    dv + "."@ + f + "("@ + dec_digits(off) + (if le {
        ", true"@
    } else {
        Seq::<char>::empty()
    }) + ")"@
}

fn push_dget(out: &mut String, dv: &str, f: &str, off: usize, delta: u8, le: bool)
    ensures
        final(out)@ == old(out)@ + dget(dv@, f@, off as nat + delta as nat, le),
{
    let ghost o0 = out@;
    out.append(dv);
    out.append(".");
    out.append(f);
    out.append("(");
    crate::text::push_u128(out, off as u128 + delta as u128);
    let ghost o1 = out@;
    if le {
        out.append(", true");
    }
    let ghost o2 = out@;
    out.append(")");
    proof {
        if !le {
            assert(o2 =~= o1 + Seq::<char>::empty());
        }
        assert(out@ =~= o0 + dget(dv@, f@, off as nat + delta as nat, le));
    }
}

/// The Deno read expression of a primitive.
pub open spec fn deno_read_prim(p: PrimitiveType, dv: Seq<char>, off: nat) -> Seq<char> {
    match p {
        PrimitiveType::U8 => dget(dv, "getUint8"@, off, false),
        PrimitiveType::I8 => dget(dv, "getInt8"@, off, false),
        PrimitiveType::U16 => dget(dv, "getUint16"@, off, true),
        PrimitiveType::I16 => dget(dv, "getInt16"@, off, true),
        PrimitiveType::U32 => dget(dv, "getUint32"@, off, true),
        PrimitiveType::I32 => dget(dv, "getInt32"@, off, true),
        PrimitiveType::F32 => dget(dv, "getFloat32"@, off, true),
        PrimitiveType::F64 => dget(dv, "getFloat64"@, off, true),
        PrimitiveType::Bool => "("@ + dget(dv, "getUint8"@, off, false) + " !== 0)"@,
        PrimitiveType::U64 => dget(dv, "getBigUint64"@, off, true),
        PrimitiveType::I64 => dget(dv, "getBigInt64"@, off, true),
    }
}

/// The Deno read expression of an enum's repr integer (unsigned).
pub open spec fn deno_read_repr(r: ReprType, dv: Seq<char>, off: nat) -> Seq<char> {
    match r {
        ReprType::U8 => dget(dv, "getUint8"@, off, false),
        ReprType::U16 => dget(dv, "getUint16"@, off, true),
        ReprType::U32 => dget(dv, "getUint32"@, off, true),
        ReprType::U64 => "Number("@ + dget(dv, "getBigUint64"@, off, true) + ")"@,
    }
}

/// `        const <name> = <expr>;`
pub open spec fn deno_const(name: Seq<char>, expr: Seq<char>) -> Seq<char> {
    "        const "@ + name + " = "@ + expr + ";\n"@
}

/// The null and length check of a payload read.
pub const DENO_READ_NONNULL: &'static str = "            if (_p !== 0n && _l > 0) {\n                const _ptr = Deno.UnsafePointer.create(_p);\n                if (_ptr !== null) {\n";

/// The closing braces of a payload read.
pub const DENO_READ_CLOSE: &'static str = "                }\n            }\n        }\n";

/// `acc` followed by the read of a StringView at `off` decoded into `name`;
/// an owned payload is freed after the copy.
pub open spec fn deno_sv_read(acc: Seq<char>, dv: Seq<char>, off: nat, name: Seq<char>, owns: bool) -> Seq<char> {
    acc + "        let "@ + name + " = '';\n"@ + "        {\n"@ + "            const _p = "@ + dget(dv, "getBigUint64"@, off, true) + ";\n"@
        + "            const _l = Number("@ + dget(dv, "getBigUint64"@, off + 8, true) + ");\n"@ + DENO_READ_NONNULL@ + "                    "@
        + name + " = _decoder.decode(new Uint8Array(Deno.UnsafePointerView.getArrayBuffer(_ptr, _l)).slice());\n"@ + (if owns {
        "                    rt.free(_ptr, _l, 1);\n"@
    } else {
        Seq::<char>::empty()
    }) + DENO_READ_CLOSE@
}

/// Emit the read of a StringView at `off` into the `let` string `name`; the
/// payload is freed after the copy when `owns_payload`.
pub fn emit_deno_read_stringview(out: &mut String, dv: &str, off: usize, name: &str, owns_payload: bool)
    ensures
        final(out)@ == deno_sv_read(old(out)@, dv@, off as nat, name@, owns_payload),
{
    out.append("        let ");
    out.append(name);
    out.append(" = '';\n");
    out.append("        {\n");
    out.append("            const _p = ");
    push_dget(out, dv, "getBigUint64", off, 0, true);
    out.append(";\n");
    out.append("            const _l = Number(");
    push_dget(out, dv, "getBigUint64", off, 8, true);
    out.append(");\n");
    out.append(DENO_READ_NONNULL);
    out.append("                    ");
    out.append(name);
    out.append(" = _decoder.decode(new Uint8Array(Deno.UnsafePointerView.getArrayBuffer(_ptr, _l)).slice());\n");
    let ghost o1 = out@;
    if owns_payload {
        out.append("                    rt.free(_ptr, _l, 1);\n");
    } else {
        assert(out@ =~= o1 + Seq::<char>::empty());
    }
    out.append(DENO_READ_CLOSE);
}

/// `acc` followed by the read of a Buffer at `off` copied into `name`; an
/// owned payload is freed by its capacity after the copy.
pub open spec fn deno_buf_read(acc: Seq<char>, dv: Seq<char>, off: nat, name: Seq<char>, owns: bool) -> Seq<char> {
    acc + "        let "@ + name + " = new Uint8Array(0);\n"@ + "        {\n"@ + "            const _p = "@ + dget(dv, "getBigUint64"@, off, true)
        + ";\n"@ + "            const _l = Number("@ + dget(dv, "getBigUint64"@, off + 8, true) + ");\n"@ + "            const _c = Number("@
        + dget(dv, "getBigUint64"@, off + 16, true) + ");\n"@ + DENO_READ_NONNULL@ + "                    "@ + name
        + " = new Uint8Array(Deno.UnsafePointerView.getArrayBuffer(_ptr, _l)).slice();\n"@ + (if owns {
        "                    rt.free(_ptr, _c > 0 ? _c : _l, 1);\n"@
    } else {
        Seq::<char>::empty()
    }) + DENO_READ_CLOSE@
}

/// Emit the read of a Buffer at `off` into the `let` array `name`; the
/// payload is freed by its capacity after the copy when `owns_payload`.
pub fn emit_deno_read_buffer(out: &mut String, dv: &str, off: usize, name: &str, owns_payload: bool)
    ensures
        final(out)@ == deno_buf_read(old(out)@, dv@, off as nat, name@, owns_payload),
{
    out.append("        let ");
    out.append(name);
    out.append(" = new Uint8Array(0);\n");
    out.append("        {\n");
    out.append("            const _p = ");
    push_dget(out, dv, "getBigUint64", off, 0, true);
    out.append(";\n");
    out.append("            const _l = Number(");
    push_dget(out, dv, "getBigUint64", off, 8, true);
    out.append(");\n");
    out.append("            const _c = Number(");
    push_dget(out, dv, "getBigUint64", off, 16, true);
    out.append(");\n");
    out.append(DENO_READ_NONNULL);
    out.append("                    ");
    out.append(name);
    out.append(" = new Uint8Array(Deno.UnsafePointerView.getArrayBuffer(_ptr, _l)).slice();\n");
    let ghost o1 = out@;
    if owns_payload {
        out.append("                    rt.free(_ptr, _c > 0 ? _c : _l, 1);\n");
    } else {
        assert(out@ =~= o1 + Seq::<char>::empty());
    }
    out.append(DENO_READ_CLOSE);
}

/// The Deno read of a value of `ty` from `dv` at `off` into a fresh local
/// `_r<k>`: the statements, the local's name and the next counter. Struct
/// fields are read into their own locals first.
pub open spec fn deno_read(ty: ResolvedTypeRef, dv: Seq<char>, off: nat, ir: ValidatedIr, k: nat, owns: bool, fuel: nat) -> Result<
    (Seq<char>, Seq<char>, nat),
    Seq<char>,
>
    decreases fuel, 0nat,
{
    let name = "_r"@ + dec_digits(k);
    let k1 = next_idx(k);
    match ty {
        ResolvedTypeRef::Primitive(p) => Ok((deno_const(name, deno_read_prim(p, dv, off)), name, k1)),
        ResolvedTypeRef::AbiType(AbiBuiltin::Ptr) => Ok((deno_const(name, dget(dv, "getBigUint64"@, off, true)), name, k1)),
        ResolvedTypeRef::AbiType(AbiBuiltin::StringView) => Ok((deno_sv_read(Seq::<char>::empty(), dv, off, name, owns), name, k1)),
        ResolvedTypeRef::AbiType(AbiBuiltin::Buffer) => Ok((deno_buf_read(Seq::<char>::empty(), dv, off, name, owns), name, k1)),
        ResolvedTypeRef::AbiType(AbiBuiltin::Void) => Err("void"@),
        ResolvedTypeRef::UserDefined(tn) => match find_enum(ir.enums@, tn@) {
            Some(e) => Ok((deno_const(name, deno_read_repr(e.repr, dv, off)), name, k1)),
            None => match find_type(ir.types@, tn@) {
                Some(s) => if fuel == 0 {
                    Err(tn@)
                } else {
                    match deno_read_fields(s.fields@, dv, off, tn@, ir, k1, owns, (fuel - 1) as nat) {
                        Err(e) => Err(e),
                        Ok(r) => Ok((r.0 + deno_const(name, "{ "@ + r.1 + " }"@), name, r.3)),
                    }
                },
                None => Err(tn@),
            },
        },
    }
}

/// The reads of every field at its C-layout offset from `off`: the
/// statements, the `name: local` members joined with `", "`, the end offset
/// and the counter.
pub open spec fn deno_read_fields(
    fs: Seq<ResolvedField>,
    dv: Seq<char>,
    off: nat,
    sname: Seq<char>,
    ir: ValidatedIr,
    k: nat,
    owns: bool,
    fuel: nat,
) -> Result<(Seq<char>, Seq<char>, nat, nat), Seq<char>>
    decreases fuel, fs.len() + 1,
{
    if fs.len() == 0 {
        Ok((Seq::<char>::empty(), Seq::<char>::empty(), off, k))
    } else {
        match deno_read_fields(fs.drop_last(), dv, off, sname, ir, k, owns, fuel) {
            Err(e) => Err(e),
            Ok(prev) => match js_align(fs.last().ty, ir.types@, ir.enums@, layout_fuel(ir)) {
                Err(e) => Err(e),
                Ok(a) => {
                    let o = align_to(prev.2, a);
                    if !fits(o) {
                        Err(sname)
                    } else {
                        match deno_read(fs.last().ty, dv, o, ir, prev.3, owns, fuel) {
                            Err(e) => Err(e),
                            Ok(x) => match js_size(fs.last().ty, ir.types@, ir.enums@, layout_fuel(ir)) {
                                Err(e) => Err(e),
                                Ok(sz) => if fits(o + sz) {
                                    let item = fs.last().name@ + ": "@ + x.1;
                                    Ok(
                                        (
                                            prev.0 + x.0,
                                            if fs.len() == 1 {
                                                item
                                            } else {
                                                prev.1 + ", "@ + item
                                            },
                                            o + sz,
                                            x.2,
                                        ),
                                    )
                                } else {
                                    Err(sname)
                                },
                            },
                        }
                    }
                },
            },
        }
    }
}

proof fn lemma_deno_read_fields_err(
    fs: Seq<ResolvedField>,
    j: int,
    dv: Seq<char>,
    off: nat,
    sname: Seq<char>,
    ir: ValidatedIr,
    k: nat,
    owns: bool,
    fuel: nat,
)
    requires
        0 <= j <= fs.len(),
        deno_read_fields(fs.take(j), dv, off, sname, ir, k, owns, fuel) is Err,
    ensures
        deno_read_fields(fs, dv, off, sname, ir, k, owns, fuel) == deno_read_fields(fs.take(j), dv, off, sname, ir, k, owns, fuel),
    decreases fs.len(),
{
    if j == fs.len() {
        assert(fs.take(j) =~= fs);
    } else {
        assert(fs.drop_last().take(j) =~= fs.take(j));
        lemma_deno_read_fields_err(fs.drop_last(), j, dv, off, sname, ir, k, owns, fuel);
    }
}

#[verifier::rlimit(60)]
fn deno_read_fuel(
    out: &mut String,
    ty: &ResolvedTypeRef,
    dv: &str,
    off: usize,
    ir: &ValidatedIr,
    idx: &mut u32,
    owns: bool,
    fuel: usize,
) -> (r: Result<String, crate::error::CodegenError>)
    ensures
        match r {
            Ok(nm) => deno_read(*ty, dv@, off as nat, *ir, *old(idx) as nat, owns, fuel as nat) matches Ok(p) && final(out)@
                == old(out)@ + p.0 && nm@ == p.1 && *final(idx) as nat == p.2,
            Err(e) => deno_read(*ty, dv@, off as nat, *ir, *old(idx) as nat, owns, fuel as nat) matches Err(n) && unsupported_is(e, n),
        },
    decreases fuel, 1nat,
{
    let mut name: String = "_r".to_owned();
    push_u32(&mut name, *idx);
    *idx = idx.wrapping_add(1);
    let mut t: String = String::new();
    match ty {
        ResolvedTypeRef::Primitive(p) => {
            t.append("        const ");
            t.append(name.as_str());
            t.append(" = ");
            let ghost t0 = t@;
            match p {
                PrimitiveType::U8 => push_dget(&mut t, dv, "getUint8", off, 0, false),
                PrimitiveType::I8 => push_dget(&mut t, dv, "getInt8", off, 0, false),
                PrimitiveType::U16 => push_dget(&mut t, dv, "getUint16", off, 0, true),
                PrimitiveType::I16 => push_dget(&mut t, dv, "getInt16", off, 0, true),
                PrimitiveType::U32 => push_dget(&mut t, dv, "getUint32", off, 0, true),
                PrimitiveType::I32 => push_dget(&mut t, dv, "getInt32", off, 0, true),
                PrimitiveType::F32 => push_dget(&mut t, dv, "getFloat32", off, 0, true),
                PrimitiveType::F64 => push_dget(&mut t, dv, "getFloat64", off, 0, true),
                PrimitiveType::Bool => {
                    t.append("(");
                    push_dget(&mut t, dv, "getUint8", off, 0, false);
                    t.append(" !== 0)");
                },
                PrimitiveType::U64 => push_dget(&mut t, dv, "getBigUint64", off, 0, true),
                PrimitiveType::I64 => push_dget(&mut t, dv, "getBigInt64", off, 0, true),
            }
            assert(t@ =~= t0 + deno_read_prim(*p, dv@, off as nat));
            t.append(";\n");
            assert(t@ =~= deno_const(name@, deno_read_prim(*p, dv@, off as nat)));
        },
        ResolvedTypeRef::AbiType(AbiBuiltin::Ptr) => {
            t.append("        const ");
            t.append(name.as_str());
            t.append(" = ");
            push_dget(&mut t, dv, "getBigUint64", off, 0, true);
            t.append(";\n");
            assert(t@ =~= deno_const(name@, dget(dv@, "getBigUint64"@, off as nat, true)));
        },
        ResolvedTypeRef::AbiType(AbiBuiltin::StringView) => emit_deno_read_stringview(&mut t, dv, off, name.as_str(), owns),
        ResolvedTypeRef::AbiType(AbiBuiltin::Buffer) => emit_deno_read_buffer(&mut t, dv, off, name.as_str(), owns),
        ResolvedTypeRef::AbiType(AbiBuiltin::Void) => {
            return Err(unsupported("void"));
        },
        ResolvedTypeRef::UserDefined(tn) => {
            match js_enum_for_type(ty, ir.enums.as_slice()) {
                Some(e) => {
                    t.append("        const ");
                    t.append(name.as_str());
                    t.append(" = ");
                    let ghost t0 = t@;
                    match e.repr {
                        ReprType::U8 => push_dget(&mut t, dv, "getUint8", off, 0, false),
                        ReprType::U16 => push_dget(&mut t, dv, "getUint16", off, 0, true),
                        ReprType::U32 => push_dget(&mut t, dv, "getUint32", off, 0, true),
                        ReprType::U64 => {
                            t.append("Number(");
                            push_dget(&mut t, dv, "getBigUint64", off, 0, true);
                            t.append(")");
                        },
                    }
                    assert(t@ =~= t0 + deno_read_repr(e.repr, dv@, off as nat));
                    t.append(";\n");
                    assert(t@ =~= deno_const(name@, deno_read_repr(e.repr, dv@, off as nat)));
                },
                None => match js_struct_for_type(ty, ir.types.as_slice()) {
                    Some(s) => {
                        if fuel == 0 {
                            return Err(unsupported(tn.as_str()));
                        }
                        let members: String = match deno_read_struct(&mut t, s, tn.as_str(), dv, off, ir, idx, owns, fuel - 1) {
                            Ok(m) => m,
                            Err(e) => {
                                return Err(e);
                            },
                        };
                        let ghost t1 = t@;
                        t.append("        const ");
                        t.append(name.as_str());
                        t.append(" = ");
                        t.append("{ ");
                        t.append(members.as_str());
                        t.append(" }");
                        t.append(";\n");
                        assert(t@ =~= t1 + deno_const(name@, "{ "@ + members@ + " }"@));
                    },
                    None => {
                        return Err(unsupported(tn.as_str()));
                    },
                },
            }
        },
    }
    out.append(t.as_str());
    Ok(name)
}

fn deno_read_struct(
    t: &mut String,
    s: &ResolvedType,
    sname: &str,
    dv: &str,
    off: usize,
    ir: &ValidatedIr,
    idx: &mut u32,
    owns: bool,
    fuel: usize,
) -> (r: Result<String, crate::error::CodegenError>)
    requires
        old(t)@.len() == 0,
    ensures
        match r {
            Ok(m) => deno_read_fields(s.fields@, dv@, off as nat, sname@, *ir, *old(idx) as nat, owns, fuel as nat) matches Ok(p)
                && final(t)@ == p.0 && m@ == p.1 && *final(idx) as nat == p.3,
            Err(e) => deno_read_fields(s.fields@, dv@, off as nat, sname@, *ir, *old(idx) as nat, owns, fuel as nat) matches Err(n)
                && unsupported_is(e, n),
        },
    decreases fuel, 2nat,
{
    let ghost fs = s.fields@;
    let ghost k0: nat = *idx as nat;
    let mut members: String = String::new();
    let mut field_off: usize = off;
    let n: usize = s.fields.len();
    let mut i: usize = 0;
    assert(t@ =~= Seq::<char>::empty());
    while i < n
        invariant
            n == fs.len(),
            fs == s.fields@,
            i <= n,
            k0 == *old(idx) as nat,
            deno_read_fields(fs.take(i as int), dv@, off as nat, sname@, *ir, k0, owns, fuel as nat) == Ok::<
                (Seq<char>, Seq<char>, nat, nat),
                Seq<char>,
            >((t@, members@, field_off as nat, *idx as nat)),
        decreases n - i,
    {
        assert(fs.take(i + 1).drop_last() =~= fs.take(i as int));
        assert(fs.take(i + 1).last() == s.fields@[i as int]);
        let fty: &ResolvedTypeRef = &s.fields[i].ty;
        let a: usize = match js_c_align(fty, ir) {
            Ok(a) => a,
            Err(e) => {
                proof {
                    lemma_deno_read_fields_err(fs, i + 1, dv@, off as nat, sname@, *ir, k0, owns, fuel as nat);
                }
                return Err(e);
            },
        };
        let o: usize = match align_up_checked(field_off, a) {
            Some(o) => o,
            None => {
                proof {
                    lemma_deno_read_fields_err(fs, i + 1, dv@, off as nat, sname@, *ir, k0, owns, fuel as nat);
                }
                return Err(unsupported(sname));
            },
        };
        let local: String = match deno_read_fuel(t, fty, dv, o, ir, idx, owns, fuel) {
            Ok(l) => l,
            Err(e) => {
                proof {
                    lemma_deno_read_fields_err(fs, i + 1, dv@, off as nat, sname@, *ir, k0, owns, fuel as nat);
                }
                return Err(e);
            },
        };
        let sz: usize = match js_c_size(fty, ir) {
            Ok(sz) => sz,
            Err(e) => {
                proof {
                    lemma_deno_read_fields_err(fs, i + 1, dv@, off as nat, sname@, *ir, k0, owns, fuel as nat);
                }
                return Err(e);
            },
        };
        field_off = match o.checked_add(sz) {
            Some(w) => w,
            None => {
                proof {
                    lemma_deno_read_fields_err(fs, i + 1, dv@, off as nat, sname@, *ir, k0, owns, fuel as nat);
                }
                return Err(unsupported(sname));
            },
        };
        let ghost prev = members@;
        if i > 0 {
            members.append(", ");
        }
        members.append(s.fields[i].name.as_str());
        members.append(": ");
        members.append(local.as_str());
        proof {
            let item = s.fields@[i as int].name@ + ": "@ + local@;
            if i == 0 {
                assert(members@ =~= item);
            } else {
                assert(members@ =~= prev + ", "@ + item);
            }
        }
        i = i + 1;
    }
    assert(fs.take(n as int) =~= fs);
    Ok(members)
}

/// Emit the read of one value of `ty` from `dv` at `off` into a fresh local
/// and return the local's name; `idx` numbers the locals and `owns_payload`
/// frees StringView/Buffer payloads after the copy.
pub fn emit_deno_read_local(
    out: &mut String,
    ty: &ResolvedTypeRef,
    dv: &str,
    off: usize,
    ir: &ValidatedIr,
    idx: &mut u32,
    owns_payload: bool,
) -> (r: Result<String, crate::error::CodegenError>)
    ensures
        match r {
            Ok(nm) => deno_read(*ty, dv@, off as nat, *ir, *old(idx) as nat, owns_payload, layout_fuel(*ir)) matches Ok(p)
                && final(out)@ == old(out)@ + p.0 && nm@ == p.1 && *final(idx) as nat == p.2,
            Err(e) => deno_read(*ty, dv@, off as nat, *ir, *old(idx) as nat, owns_payload, layout_fuel(*ir)) matches Err(n)
                && unsupported_is(e, n),
        },
{
    deno_read_fuel(out, ty, dv, off, ir, idx, owns_payload, ir.types.len())
}

/// `name: type` for every parameter in Deno caller types, joined with `", "`.
pub open spec fn deno_param_decls(params: Seq<ResolvedParam>, ir: ValidatedIr) -> Result<Seq<char>, Seq<char>>
    decreases params.len(),
{
    if params.len() == 0 {
        Ok(Seq::<char>::empty())
    } else {
        match deno_param_decls(params.drop_last(), ir) {
            Err(e) => Err(e),
            Ok(p) => match deno_ts(params.last().ty, ir, layout_fuel(ir)) {
                Err(e) => Err(e),
                Ok(t) => {
                    let item = params.last().name@ + ": "@ + t;
                    Ok(
                        if params.len() == 1 {
                            item
                        } else {
                            p + ", "@ + item
                        },
                    )
                },
            },
        }
    }
}

proof fn lemma_param_decls_err(params: Seq<ResolvedParam>, k: int, ir: ValidatedIr)
    requires
        0 <= k <= params.len(),
        deno_param_decls(params.take(k), ir) is Err,
    ensures
        deno_param_decls(params, ir) == deno_param_decls(params.take(k), ir),
    decreases params.len(),
{
    if k == params.len() {
        assert(params.take(k) =~= params);
    } else {
        assert(params.drop_last().take(k) =~= params.take(k));
        lemma_param_decls_err(params.drop_last(), k, ir);
    }
}

fn param_decls(params: &Vec<ResolvedParam>, ir: &ValidatedIr) -> (r: Result<String, crate::error::CodegenError>)
    ensures
        match r {
            Ok(s) => deno_param_decls(params@, *ir) == Ok::<Seq<char>, Seq<char>>(s@),
            Err(e) => deno_param_decls(params@, *ir) matches Err(n) && unsupported_is(e, n),
        },
{
    let mut acc: String = String::new();
    let n: usize = params.len();
    let mut i: usize = 0;
    while i < n
        invariant
            n == params@.len(),
            i <= n,
            deno_param_decls(params@.take(i as int), *ir) == Ok::<Seq<char>, Seq<char>>(acc@),
        decreases n - i,
    {
        assert(params@.take(i + 1).drop_last() =~= params@.take(i as int));
        assert(params@.take(i + 1).last() == params@[i as int]);
        let t: String = match deno_caller_ts_type(&params[i].ty, ir) {
            Ok(t) => t,
            Err(e) => {
                proof {
                    lemma_param_decls_err(params@, i + 1, *ir);
                }
                return Err(e);
            },
        };
        let ghost prev = acc@;
        if i > 0 {
            acc.append(", ");
        }
        acc.append(params[i].name.as_str());
        acc.append(": ");
        acc.append(t.as_str());
        proof {
            let item = params@[i as int].name@ + ": "@ + t@;
            if i == 0 {
                assert(acc@ =~= item);
            } else {
                assert(acc@ =~= prev + ", "@ + item);
            }
        }
        i = i + 1;
    }
    assert(params@.take(n as int) =~= params@);
    Ok(acc)
}

/// The end offset and largest alignment of a function's C-layout argument
/// struct; an overflow is reported under the function's name.
pub open spec fn deno_args_layout(params: Seq<ResolvedParam>, fname: Seq<char>, ir: ValidatedIr) -> Result<(nat, nat), Seq<char>>
    decreases params.len(),
{
    if params.len() == 0 {
        Ok((0, 1))
    } else {
        match deno_args_layout(params.drop_last(), fname, ir) {
            Err(e) => Err(e),
            Ok(prev) => match js_align(params.last().ty, ir.types@, ir.enums@, layout_fuel(ir)) {
                Err(e) => Err(e),
                Ok(a) => {
                    let m = if a > prev.1 {
                        a
                    } else {
                        prev.1
                    };
                    let o = align_to(prev.0, a);
                    if !fits(o) {
                        Err(fname)
                    } else {
                        match js_size(params.last().ty, ir.types@, ir.enums@, layout_fuel(ir)) {
                            Err(e) => Err(e),
                            Ok(sz) => if fits(o + sz) {
                                Ok((o + sz, m))
                            } else {
                                Err(fname)
                            },
                        }
                    }
                },
            },
        }
    }
}

proof fn lemma_args_layout_err(params: Seq<ResolvedParam>, k: int, fname: Seq<char>, ir: ValidatedIr)
    requires
        0 <= k <= params.len(),
        deno_args_layout(params.take(k), fname, ir) is Err,
    ensures
        deno_args_layout(params, fname, ir) == deno_args_layout(params.take(k), fname, ir),
    decreases params.len(),
{
    if k == params.len() {
        assert(params.take(k) =~= params);
    } else {
        assert(params.drop_last().take(k) =~= params.take(k));
        lemma_args_layout_err(params.drop_last(), k, fname, ir);
    }
}

/// The total C-layout size of a function's argument struct, tail padded to
/// its alignment.
pub open spec fn deno_args_total(f: ResolvedFunction, ir: ValidatedIr) -> Result<nat, Seq<char>> {
    match deno_args_layout(f.params@, f.name@, ir) {
        Err(e) => Err(e),
        Ok(l) => {
            let t = align_to(l.0, l.1);
            if fits(t) {
                Ok(t)
            } else {
                Err(f.name@)
            }
        },
    }
}

/// Total C-layout size of a function's argument struct (natural alignment,
/// tail padded to the struct's own alignment).
pub fn deno_args_total_size(func: &ResolvedFunction, ir: &ValidatedIr) -> (r: Result<usize, crate::error::CodegenError>)
    ensures
        match r {
            Ok(v) => deno_args_total(*func, *ir) == Ok::<nat, Seq<char>>(v as nat),
            Err(e) => deno_args_total(*func, *ir) matches Err(n) && unsupported_is(e, n),
        },
{
    let ghost ps = func.params@;
    let n: usize = func.params.len();
    let mut offset: usize = 0;
    let mut max_align: usize = 1;
    let mut i: usize = 0;
    while i < n
        invariant
            n == ps.len(),
            ps == func.params@,
            i <= n,
            deno_args_layout(ps.take(i as int), func.name@, *ir) == Ok::<(nat, nat), Seq<char>>((offset as nat, max_align as nat)),
        decreases n - i,
    {
        assert(ps.take(i + 1).drop_last() =~= ps.take(i as int));
        assert(ps.take(i + 1).last() == ps[i as int]);
        let a: usize = match js_c_align(&func.params[i].ty, ir) {
            Ok(a) => a,
            Err(e) => {
                proof {
                    lemma_args_layout_err(ps, i + 1, func.name@, *ir);
                }
                return Err(e);
            },
        };
        if a > max_align {
            max_align = a;
        }
        let o: usize = match align_up_checked(offset, a) {
            Some(o) => o,
            None => {
                proof {
                    lemma_args_layout_err(ps, i + 1, func.name@, *ir);
                }
                return Err(unsupported(func.name.as_str()));
            },
        };
        let sz: usize = match js_c_size(&func.params[i].ty, ir) {
            Ok(sz) => sz,
            Err(e) => {
                proof {
                    lemma_args_layout_err(ps, i + 1, func.name@, *ir);
                }
                return Err(e);
            },
        };
        offset = match o.checked_add(sz) {
            Some(v) => v,
            None => {
                proof {
                    lemma_args_layout_err(ps, i + 1, func.name@, *ir);
                }
                return Err(unsupported(func.name.as_str()));
            },
        };
        i = i + 1;
    }
    assert(ps.take(n as int) =~= ps);
    match align_up_checked(offset, max_align) {
        Some(t) => Ok(t),
        None => Err(unsupported(func.name.as_str())),
    }
}

/// The Deno writes of every parameter into `dv` at its C-layout offset; the
/// text, the end offset and the payload counter.
pub open spec fn deno_arg_writes(params: Seq<ResolvedParam>, dv: Seq<char>, fname: Seq<char>, ir: ValidatedIr) -> Result<
    (Seq<char>, nat, nat),
    Seq<char>,
>
    decreases params.len(),
{
    if params.len() == 0 {
        Ok((Seq::<char>::empty(), 0, 0))
    } else {
        match deno_arg_writes(params.drop_last(), dv, fname, ir) {
            Err(e) => Err(e),
            Ok(prev) => match js_align(params.last().ty, ir.types@, ir.enums@, layout_fuel(ir)) {
                Err(e) => Err(e),
                Ok(a) => {
                    let o = align_to(prev.1, a);
                    if !fits(o) {
                        Err(fname)
                    } else {
                        match deno_write(params.last().ty, dv, o, params.last().name@, ir, prev.2, layout_fuel(ir)) {
                            Err(e) => Err(e),
                            Ok(x) => match js_size(params.last().ty, ir.types@, ir.enums@, layout_fuel(ir)) {
                                Err(e) => Err(e),
                                Ok(sz) => if fits(o + sz) {
                                    Ok((prev.0 + x.0, o + sz, x.1))
                                } else {
                                    Err(fname)
                                },
                            },
                        }
                    }
                },
            },
        }
    }
}

proof fn lemma_arg_writes_err(params: Seq<ResolvedParam>, k: int, dv: Seq<char>, fname: Seq<char>, ir: ValidatedIr)
    requires
        0 <= k <= params.len(),
        deno_arg_writes(params.take(k), dv, fname, ir) is Err,
    ensures
        deno_arg_writes(params, dv, fname, ir) == deno_arg_writes(params.take(k), dv, fname, ir),
    decreases params.len(),
{
    if k == params.len() {
        assert(params.take(k) =~= params);
    } else {
        assert(params.drop_last().take(k) =~= params.take(k));
        lemma_arg_writes_err(params.drop_last(), k, dv, fname, ir);
    }
}

fn arg_writes(f: &ResolvedFunction, dv: &str, ir: &ValidatedIr) -> (r: Result<String, crate::error::CodegenError>)
    ensures
        match r {
            Ok(s) => deno_arg_writes(f.params@, dv@, f.name@, *ir) matches Ok(w) && s@ == w.0,
            Err(e) => deno_arg_writes(f.params@, dv@, f.name@, *ir) matches Err(n) && unsupported_is(e, n),
        },
{
    let ghost ps = f.params@;
    let n: usize = f.params.len();
    let mut acc: String = String::new();
    let mut offset: usize = 0;
    let mut idx: u32 = 0;
    let mut i: usize = 0;
    while i < n
        invariant
            n == ps.len(),
            ps == f.params@,
            i <= n,
            deno_arg_writes(ps.take(i as int), dv@, f.name@, *ir) == Ok::<(Seq<char>, nat, nat), Seq<char>>(
                (acc@, offset as nat, idx as nat),
            ),
        decreases n - i,
    {
        assert(ps.take(i + 1).drop_last() =~= ps.take(i as int));
        assert(ps.take(i + 1).last() == ps[i as int]);
        let p: &ResolvedParam = &f.params[i];
        let a: usize = match js_c_align(&p.ty, ir) {
            Ok(a) => a,
            Err(e) => {
                proof {
                    lemma_arg_writes_err(ps, i + 1, dv@, f.name@, *ir);
                }
                return Err(e);
            },
        };
        let o: usize = match align_up_checked(offset, a) {
            Some(o) => o,
            None => {
                proof {
                    lemma_arg_writes_err(ps, i + 1, dv@, f.name@, *ir);
                }
                return Err(unsupported(f.name.as_str()));
            },
        };
        match emit_deno_write_value(&mut acc, &p.ty, dv, o, p.name.as_str(), ir, &mut idx) {
            Ok(_) => {},
            Err(e) => {
                proof {
                    lemma_arg_writes_err(ps, i + 1, dv@, f.name@, *ir);
                }
                return Err(e);
            },
        }
        let sz: usize = match js_c_size(&p.ty, ir) {
            Ok(sz) => sz,
            Err(e) => {
                proof {
                    lemma_arg_writes_err(ps, i + 1, dv@, f.name@, *ir);
                }
                return Err(e);
            },
        };
        offset = match o.checked_add(sz) {
            Some(v) => v,
            None => {
                proof {
                    lemma_arg_writes_err(ps, i + 1, dv@, f.name@, *ir);
                }
                return Err(unsupported(f.name.as_str()));
            },
        };
        i = i + 1;
    }
    assert(ps.take(n as int) =~= ps);
    Ok(acc)
}

/// `n`, or 1 for zero (a buffer is never empty).
pub open spec fn at_least_one(n: nat) -> nat {
    if n == 0 {
        1
    } else {
        n
    }
}

/// The TypeScript type of a Deno caller's result (`void` without one).
pub open spec fn deno_ret_ts(ret: Option<ResolvedTypeRef>, ir: ValidatedIr) -> Result<Seq<char>, Seq<char>> {
    match ret {
        None => Ok("void"@),
        Some(t) => deno_ts(t, ir, layout_fuel(ir)),
    }
}

/// The out buffer size of a Deno caller (0 without a result).
pub open spec fn deno_ret_size(ret: Option<ResolvedTypeRef>, ir: ValidatedIr) -> Result<nat, Seq<char>> {
    match ret {
        None => Ok(0),
        Some(t) => js_size(t, ir.types@, ir.enums@, layout_fuel(ir)),
    }
}

/// The read-back and return of a Deno caller's result (the caller owns the
/// returned payloads).
pub open spec fn deno_ret_read(ret: Option<ResolvedTypeRef>, ir: ValidatedIr) -> Result<Seq<char>, Seq<char>> {
    match ret {
        None => Ok(Seq::<char>::empty()),
        Some(t) => match deno_read(t, "outDv"@, 0, ir, 0, true, layout_fuel(ir)) {
            Err(e) => Err(e),
            Ok(r) => Ok("        const outDv = new DataView(outBuf.buffer);\n"@ + r.0 + "        return "@ + r.1 + ";\n"@),
        },
    }
}

/// `acc` followed by the text of a Deno caller method from its pieces: the
/// parameter declarations, the result type, the args size, the args writes,
/// the out size and the read-back.
pub open spec fn deno_method_text(
    acc: Seq<char>,
    f: ResolvedFunction,
    decls: Seq<char>,
    rt: Seq<char>,
    asz: nat,
    w: Seq<char>,
    rsz: nat,
    rd: Seq<char>,
) -> Seq<char> {
    acc + "    /** Call `"@ + f.name@ + "` */\n"@ + "    "@ + f.name@ + "("@ + decls + "): "@ + rt + " {\n"@
        + "        if (this.#view.functionCount() > 0 && "@ + dec_digits(f.function_id as nat) + " >= this.#view.functionCount()) {\n"@
        + "            throw new Error('function `"@ + f.name@ + "` not available in interface');\n"@ + "        }\n"@
        + "        const rt = this.#rt;\n"@ + "        const _allocs: [Deno.PointerValue, number][] = [];\n"@
        + "        const argsBuf = new Uint8Array("@ + dec_digits(at_least_one(asz)) + ");\n"@ + (if f.params@.len() > 0 {
        "        const argsDv = new DataView(argsBuf.buffer);\n"@ + w
    } else {
        Seq::<char>::empty()
    }) + "        const argsPtr = Deno.UnsafePointer.of(argsBuf);\n"@ + "        const outBuf = new Uint8Array("@ + dec_digits(
        at_least_one(rsz),
    ) + ");\n"@ + "        const outPtr = Deno.UnsafePointer.of(outBuf);\n"@ + "        const code = this.#view.dispatch("@ + dec_digits(
        f.function_id as nat,
    ) + ", this.#instance, argsPtr, outPtr);\n"@ + "        for (const [_p, _s] of _allocs) { rt.free(_p, _s, 1); }\n"@
        + "        if (code !== AbiErrorCode.Ok) {\n"@ + "            throw new Error('call `"@ + f.name@ + "` failed: AbiError code ' + code);\n"@
        + "        }\n"@ + rd + "    }\n\n"@
}

/// A Deno host-caller method with full ABI marshalling.
pub open spec fn deno_method(f: ResolvedFunction, ir: ValidatedIr) -> Result<Seq<char>, Seq<char>> {
    match deno_param_decls(f.params@, ir) {
        Err(e) => Err(e),
        Ok(decls) => match deno_ret_ts(f.returns, ir) {
            Err(e) => Err(e),
            Ok(rt) => match deno_args_total(f, ir) {
                Err(e) => Err(e),
                Ok(asz) => match deno_arg_writes(f.params@, "argsDv"@, f.name@, ir) {
                    Err(e) => Err(e),
                    Ok(w) => match deno_ret_size(f.returns, ir) {
                        Err(e) => Err(e),
                        Ok(rsz) => match deno_ret_read(f.returns, ir) {
                            Err(e) => Err(e),
                            Ok(rd) => Ok(deno_method_text(Seq::<char>::empty(), f, decls, rt, asz, w.0, rsz, rd)),
                        },
                    },
                },
            },
        },
    }
}

#[verifier::rlimit(40)]
fn push_deno_method_text(
    out: &mut String,
    f: &ResolvedFunction,
    decls: &str,
    rt: &str,
    asz: usize,
    w: &str,
    rsz: usize,
    rd: &str,
)
    ensures
        final(out)@ == deno_method_text(old(out)@, *f, decls@, rt@, asz as nat, w@, rsz as nat, rd@),
{
    out.append("    /** Call `");
    out.append(f.name.as_str());
    out.append("` */\n");
    out.append("    ");
    out.append(f.name.as_str());
    out.append("(");
    out.append(decls);
    out.append("): ");
    out.append(rt);
    out.append(" {\n");
    out.append("        if (this.#view.functionCount() > 0 && ");
    push_u32(out, f.function_id);
    out.append(" >= this.#view.functionCount()) {\n");
    out.append("            throw new Error('function `");
    out.append(f.name.as_str());
    out.append("` not available in interface');\n");
    out.append("        }\n");
    out.append("        const rt = this.#rt;\n");
    out.append("        const _allocs: [Deno.PointerValue, number][] = [];\n");
    out.append("        const argsBuf = new Uint8Array(");
    push_usize(out, if asz == 0 {
        1
    } else {
        asz
    });
    out.append(");\n");
    let ghost o1 = out@;
    if f.params.len() > 0 {
        out.append("        const argsDv = new DataView(argsBuf.buffer);\n");
        out.append(w);
    }
    let ghost o2 = out@;
    assert(o2 =~= o1 + (if f.params@.len() > 0 {
        "        const argsDv = new DataView(argsBuf.buffer);\n"@ + w@
    } else {
        Seq::<char>::empty()
    }));
    out.append("        const argsPtr = Deno.UnsafePointer.of(argsBuf);\n");
    out.append("        const outBuf = new Uint8Array(");
    push_usize(out, if rsz == 0 {
        1
    } else {
        rsz
    });
    out.append(");\n");
    out.append("        const outPtr = Deno.UnsafePointer.of(outBuf);\n");
    out.append("        const code = this.#view.dispatch(");
    push_u32(out, f.function_id);
    out.append(", this.#instance, argsPtr, outPtr);\n");
    out.append("        for (const [_p, _s] of _allocs) { rt.free(_p, _s, 1); }\n");
    out.append("        if (code !== AbiErrorCode.Ok) {\n");
    out.append("            throw new Error('call `");
    out.append(f.name.as_str());
    out.append("` failed: AbiError code ' + code);\n");
    out.append("        }\n");
    out.append(rd);
    out.append("    }\n\n");
}

/// Generate one Deno host-caller method: arguments packed into a C-layout
/// struct buffer, dispatch through the resolved interface, the result read
/// back and its payloads freed. On an error `out` is left unchanged.
pub fn generate_host_caller_method_deno(out: &mut String, ir: &ValidatedIr, func: &ResolvedFunction) -> (r: Result<
    (),
    crate::error::CodegenError,
>)
    ensures
        match r {
            Ok(_) => deno_method(*func, *ir) matches Ok(t) && final(out)@ == old(out)@ + t,
            Err(e) => deno_method(*func, *ir) matches Err(n) && unsupported_is(e, n) && final(out)@ == old(out)@,
        },
{
    let decls: String = match param_decls(&func.params, ir) {
        Ok(d) => d,
        Err(e) => {
            return Err(e);
        },
    };
    let rt: String = match &func.returns {
        Some(t) => match deno_caller_ts_type(t, ir) {
            Ok(s) => s,
            Err(e) => {
                return Err(e);
            },
        },
        None => "void".to_owned(),
    };
    let asz: usize = match deno_args_total_size(func, ir) {
        Ok(s) => s,
        Err(e) => {
            return Err(e);
        },
    };
    let w: String = match arg_writes(func, "argsDv", ir) {
        Ok(w) => w,
        Err(e) => {
            return Err(e);
        },
    };
    let rsz: usize = match &func.returns {
        Some(t) => match js_c_size(t, ir) {
            Ok(s) => s,
            Err(e) => {
                return Err(e);
            },
        },
        None => 0,
    };
    let mut rd: String = String::new();
    match &func.returns {
        Some(t) => {
            rd.append("        const outDv = new DataView(outBuf.buffer);\n");
            let mut idx: u32 = 0;
            let local: String = match emit_deno_read_local(&mut rd, t, "outDv", 0, ir, &mut idx, true) {
                Ok(l) => l,
                Err(e) => {
                    return Err(e);
                },
            };
            rd.append("        return ");
            rd.append(local.as_str());
            rd.append(";\n");
        },
        None => {},
    }
    assert(deno_ret_read(func.returns, *ir) == Ok::<Seq<char>, Seq<char>>(rd@));
    let mut t: String = String::new();
    push_deno_method_text(&mut t, func, decls.as_str(), rt.as_str(), asz, w.as_str(), rsz, rd.as_str());
    out.append(t.as_str());
    Ok(())
}

/// The fields, constructor and `create` doc line of a Deno caller class.
pub const DENO_CLASS_FIELDS: &'static str = "    #rt: Runtime;\n    #view: GuestContractInterfaceView;\n    #instance: Uint8Array;\n\n    private constructor(rt: Runtime, view: GuestContractInterfaceView, instance: Uint8Array) {\n        this.#rt = rt;\n        this.#view = view;\n        this.#instance = instance;\n    }\n\n    /** Resolve the contract and create an instance, or null if unavailable. */\n";

/// The resolution and instance creation inside `create`.
pub const DENO_CREATE_BODY: &'static str = "        const view = rt.resolveGuestContractInterface(handle);\n        if (view === null || !view.isValid()) {\n            return null;\n        }\n        const instance = view.createInstance();\n";

/// The `isValid` and `destroy` methods of a Deno caller class.
pub const DENO_CLASS_TAIL: &'static str = "    /** True while the resolved interface pointer is valid. */\n    isValid(): boolean {\n        return this.#view.isValid();\n    }\n\n    /** Destroy the instance via the interface `destroy_instance`. */\n    destroy(): void {\n        this.#view.destroyInstance(this.#instance);\n    }\n\n";

/// `acc` followed by the head of a Deno caller class: doc comment, fields,
/// `create`, `isValid` and `destroy`.
pub open spec fn deno_class_head(acc: Seq<char>, c: ResolvedContract) -> Seq<char> {
    let cls = pascal(c.name@, '.');
    acc + "/** Host caller for contract `"@ + c.name@ + "` over the Deno FFI SDK. */\n"@ + "export class "@ + cls + "Contract {\n"@
        + DENO_CLASS_FIELDS@ + "    static create(rt: Runtime): "@ + cls + "Contract | null {\n"@ + "        const handle = rt.findGuestContract("@
        + lua_contract_upper(c.name@) + "_CONTRACT_ID"@ + ", 0);\n"@ + DENO_CREATE_BODY@ + "        return new "@ + cls
        + "Contract(rt, view, instance);\n"@ + "    }\n\n"@ + DENO_CLASS_TAIL@
}

fn push_deno_class_head(out: &mut String, c: &ResolvedContract)
    ensures
        final(out)@ == deno_class_head(old(out)@, *c),
{
    let cls: String = contract_to_class_name(c.name.as_str());
    let upper: String = contract_upper_name(c.name.as_str());
    out.append("/** Host caller for contract `");
    out.append(c.name.as_str());
    out.append("` over the Deno FFI SDK. */\n");
    out.append("export class ");
    out.append(cls.as_str());
    out.append("Contract {\n");
    out.append(DENO_CLASS_FIELDS);
    out.append("    static create(rt: Runtime): ");
    out.append(cls.as_str());
    out.append("Contract | null {\n");
    out.append("        const handle = rt.findGuestContract(");
    out.append(upper.as_str());
    out.append("_CONTRACT_ID");
    out.append(", 0);\n");
    out.append(DENO_CREATE_BODY);
    out.append("        return new ");
    out.append(cls.as_str());
    out.append("Contract(rt, view, instance);\n");
    out.append("    }\n\n");
    out.append(DENO_CLASS_TAIL);
}

/// Every Deno caller method of a contract, in order.
pub open spec fn deno_methods(funcs: Seq<ResolvedFunction>, ir: ValidatedIr) -> Result<Seq<char>, Seq<char>>
    decreases funcs.len(),
{
    if funcs.len() == 0 {
        Ok(Seq::<char>::empty())
    } else {
        match deno_methods(funcs.drop_last(), ir) {
            Err(e) => Err(e),
            Ok(p) => match deno_method(funcs.last(), ir) {
                Err(e) => Err(e),
                Ok(m) => Ok(p + m),
            },
        }
    }
}

proof fn lemma_deno_methods_err(funcs: Seq<ResolvedFunction>, k: int, ir: ValidatedIr)
    requires
        0 <= k <= funcs.len(),
        deno_methods(funcs.take(k), ir) is Err,
    ensures
        deno_methods(funcs, ir) == deno_methods(funcs.take(k), ir),
    decreases funcs.len(),
{
    if k == funcs.len() {
        assert(funcs.take(k) =~= funcs);
    } else {
        assert(funcs.drop_last().take(k) =~= funcs.take(k));
        lemma_deno_methods_err(funcs.drop_last(), k, ir);
    }
}

/// A Deno host-caller class for one guest contract.
pub open spec fn deno_class(c: ResolvedContract, ir: ValidatedIr) -> Result<Seq<char>, Seq<char>> {
    match deno_methods(c.functions@, ir) {
        Err(e) => Err(e),
        Ok(m) => Ok(deno_class_head(Seq::<char>::empty(), c) + m + "}\n\n"@),
    }
}

/// Generate the Deno host-caller class of one contract; on an error `out` is
/// left unchanged.
pub fn generate_host_caller_class_quickjs(out: &mut String, ir: &ValidatedIr, contract: &ResolvedContract) -> (r: Result<
    (),
    crate::error::CodegenError,
>)
    ensures
        match r {
            Ok(_) => deno_class(*contract, *ir) matches Ok(t) && final(out)@ == old(out)@ + t,
            Err(e) => deno_class(*contract, *ir) matches Err(n) && unsupported_is(e, n) && final(out)@ == old(out)@,
        },
{
    let mut m: String = String::new();
    let n: usize = contract.functions.len();
    let mut i: usize = 0;
    while i < n
        invariant
            n == contract.functions@.len(),
            i <= n,
            deno_methods(contract.functions@.take(i as int), *ir) == Ok::<Seq<char>, Seq<char>>(m@),
        decreases n - i,
    {
        assert(contract.functions@.take(i + 1).drop_last() =~= contract.functions@.take(i as int));
        assert(contract.functions@.take(i + 1).last() == contract.functions@[i as int]);
        match generate_host_caller_method_deno(&mut m, ir, &contract.functions[i]) {
            Ok(_) => {},
            Err(e) => {
                proof {
                    lemma_deno_methods_err(contract.functions@, i + 1, *ir);
                }
                return Err(e);
            },
        }
        i = i + 1;
    }
    assert(contract.functions@.take(n as int) =~= contract.functions@);
    let mut t: String = String::new();
    push_deno_class_head(&mut t, contract);
    t.append(m.as_str());
    t.append("}\n\n");
    out.append(t.as_str());
    Ok(())
}

/// The Deno callers file header, structural SDK types, error codes and
/// text codecs.
pub const DENO_CALLERS_PRELUDE: &'static str = "// THIS FILE IS AUTO-GENERATED BY polyplugc\n// DO NOT EDIT BY HAND\n// Runtime: js (Deno host callers over the polyplug Deno FFI SDK)\n\n// Structural SDK types (see sdks/js/host/polyplug/mod.js).\ninterface GuestContractInterfaceView {\n    isValid(): boolean;\n    functionCount(): number;\n    createInstance(): Uint8Array;\n    destroyInstance(instance: Uint8Array): void;\n    dispatch(slot: number, instance: Uint8Array, argsPtr: Deno.PointerValue, outPtr: Deno.PointerValue): number;\n}\ninterface Runtime {\n    findGuestContract(contractId: bigint, minVersion?: number): number;\n    resolveGuestContractInterface(handle: number): GuestContractInterfaceView | null;\n    alloc(size: number, align?: number): Deno.PointerValue;\n    free(ptr: Deno.PointerValue, size: number, align?: number): void;\n}\n\n// ABI error codes (match polyplug_abi.AbiErrorCode)\nexport const AbiErrorCode = {\n    Ok: 0,\n    Generic: 1,\n    InvalidPointer: 8,\n} as const;\n\nconst _encoder = new TextEncoder();\nconst _decoder = new TextDecoder();\n\n// Contract ID constants (FNV-1a of \"guest_contract:name@major\")\n";

/// `acc` followed by one contract-id constant per contract.
pub open spec fn deno_contract_ids(acc: Seq<char>, contracts: Seq<ResolvedContract>) -> Seq<char>
    decreases contracts.len(),
{
    if contracts.len() == 0 {
        acc
    } else {
        let c = contracts.last();
        deno_contract_ids(acc, contracts.drop_last()) + "/** Contract ID for `"@ + c.name@ + "@"@ + dec_digits(c.version.major as nat)
            + "` */\n"@ + "export const "@ + lua_contract_upper(c.name@) + "_CONTRACT_ID = 0x"@ + hex_digits(c.contract_id as nat, 16)
            + "n;\n"@
    }
}

/// Every Deno caller class, in order.
pub open spec fn deno_classes(contracts: Seq<ResolvedContract>, ir: ValidatedIr) -> Result<Seq<char>, Seq<char>>
    decreases contracts.len(),
{
    if contracts.len() == 0 {
        Ok(Seq::<char>::empty())
    } else {
        match deno_classes(contracts.drop_last(), ir) {
            Err(e) => Err(e),
            Ok(p) => match deno_class(contracts.last(), ir) {
                Err(e) => Err(e),
                Ok(c) => Ok(p + c),
            },
        }
    }
}

proof fn lemma_deno_classes_err(contracts: Seq<ResolvedContract>, k: int, ir: ValidatedIr)
    requires
        0 <= k <= contracts.len(),
        deno_classes(contracts.take(k), ir) is Err,
    ensures
        deno_classes(contracts, ir) == deno_classes(contracts.take(k), ir),
    decreases contracts.len(),
{
    if k == contracts.len() {
        assert(contracts.take(k) =~= contracts);
    } else {
        assert(contracts.drop_last().take(k) =~= contracts.take(k));
        lemma_deno_classes_err(contracts.drop_last(), k, ir);
    }
}

/// `host/callers.ts`: Deno host callers for every contract.
#[verifier::opaque]
pub open spec fn js_callers_ts(ir: ValidatedIr) -> Result<Seq<char>, Seq<char>> {
    match deno_classes(ir.contracts@, ir) {
        Err(e) => Err(e),
        Ok(cls) => Ok(deno_contract_ids(DENO_CALLERS_PRELUDE@, ir.contracts@) + "\n"@ + cls),
    }
}

/// Generate `host/callers.ts`.
pub fn generate_callers_ts(ir: &ValidatedIr) -> (r: Result<String, crate::error::CodegenError>)
    ensures
        match r {
            Ok(s) => js_callers_ts(*ir) == Ok::<Seq<char>, Seq<char>>(s@),
            Err(e) => js_callers_ts(*ir) matches Err(n) && unsupported_is(e, n),
        },
{
    let mut cls: String = String::new();
    let n: usize = ir.contracts.len();
    let mut i: usize = 0;
    while i < n
        invariant
            n == ir.contracts@.len(),
            i <= n,
            deno_classes(ir.contracts@.take(i as int), *ir) == Ok::<Seq<char>, Seq<char>>(cls@),
        decreases n - i,
    {
        assert(ir.contracts@.take(i + 1).drop_last() =~= ir.contracts@.take(i as int));
        assert(ir.contracts@.take(i + 1).last() == ir.contracts@[i as int]);
        match generate_host_caller_class_quickjs(&mut cls, ir, &ir.contracts[i]) {
            Ok(_) => {},
            Err(e) => {
                proof {
                    lemma_deno_classes_err(ir.contracts@, i + 1, *ir);
                }
                proof {
                    reveal(js_callers_ts);
                }
                return Err(e);
            },
        }
        i = i + 1;
    }
    assert(ir.contracts@.take(n as int) =~= ir.contracts@);
    let mut out: String = DENO_CALLERS_PRELUDE.to_owned();
    let ghost o1 = out@;
    let mut j: usize = 0;
    while j < n
        invariant
            n == ir.contracts@.len(),
            j <= n,
            out@ == deno_contract_ids(o1, ir.contracts@.take(j as int)),
        decreases n - j,
    {
        let c: &ResolvedContract = &ir.contracts[j];
        let upper: String = contract_upper_name(c.name.as_str());
        out.append("/** Contract ID for `");
        out.append(c.name.as_str());
        out.append("@");
        push_u32(&mut out, c.version.major);
        out.append("` */\n");
        out.append("export const ");
        out.append(upper.as_str());
        out.append("_CONTRACT_ID = 0x");
        push_hex16(&mut out, c.contract_id);
        out.append("n;\n");
        assert(ir.contracts@.take(j + 1).drop_last() =~= ir.contracts@.take(j as int));
        j = j + 1;
    }
    assert(ir.contracts@.take(n as int) =~= ir.contracts@);
    out.append("\n");
    out.append(cls.as_str());
    proof {
        reveal(js_callers_ts);
    }
    Ok(out)
}

// ─── Host interface factories ───────────────────────────────────────────────

/// The reads of every parameter from `_argsDv` at its C-layout offset (the
/// caller owns the payloads): the statements, the locals joined with `", "`,
/// the end offset and the counter.
pub open spec fn deno_thunk_reads(params: Seq<ResolvedParam>, fname: Seq<char>, ir: ValidatedIr) -> Result<
    (Seq<char>, Seq<char>, nat, nat),
    Seq<char>,
>
    decreases params.len(),
{
    if params.len() == 0 {
        Ok((Seq::<char>::empty(), Seq::<char>::empty(), 0, 0))
    } else {
        match deno_thunk_reads(params.drop_last(), fname, ir) {
            Err(e) => Err(e),
            Ok(prev) => match js_align(params.last().ty, ir.types@, ir.enums@, layout_fuel(ir)) {
                Err(e) => Err(e),
                Ok(a) => {
                    let o = align_to(prev.2, a);
                    if !fits(o) {
                        Err(fname)
                    } else {
                        match deno_read(params.last().ty, "_argsDv"@, o, ir, prev.3, false, layout_fuel(ir)) {
                            Err(e) => Err(e),
                            Ok(x) => match js_size(params.last().ty, ir.types@, ir.enums@, layout_fuel(ir)) {
                                Err(e) => Err(e),
                                Ok(sz) => if fits(o + sz) {
                                    Ok(
                                        (
                                            prev.0 + x.0,
                                            if params.len() == 1 {
                                                x.1
                                            } else {
                                                prev.1 + ", "@ + x.1
                                            },
                                            o + sz,
                                            x.2,
                                        ),
                                    )
                                } else {
                                    Err(fname)
                                },
                            },
                        }
                    }
                },
            },
        }
    }
}

proof fn lemma_thunk_reads_err(params: Seq<ResolvedParam>, k: int, fname: Seq<char>, ir: ValidatedIr)
    requires
        0 <= k <= params.len(),
        deno_thunk_reads(params.take(k), fname, ir) is Err,
    ensures
        deno_thunk_reads(params, fname, ir) == deno_thunk_reads(params.take(k), fname, ir),
    decreases params.len(),
{
    if k == params.len() {
        assert(params.take(k) =~= params);
    } else {
        assert(params.drop_last().take(k) =~= params.take(k));
        lemma_thunk_reads_err(params.drop_last(), k, fname, ir);
    }
}

fn thunk_reads(f: &ResolvedFunction, ir: &ValidatedIr) -> (r: Result<(String, String), crate::error::CodegenError>)
    ensures
        match r {
            Ok(p) => deno_thunk_reads(f.params@, f.name@, *ir) matches Ok(w) && p.0@ == w.0 && p.1@ == w.1,
            Err(e) => deno_thunk_reads(f.params@, f.name@, *ir) matches Err(n) && unsupported_is(e, n),
        },
{
    let ghost ps = f.params@;
    let n: usize = f.params.len();
    let mut text: String = String::new();
    let mut names: String = String::new();
    let mut offset: usize = 0;
    let mut idx: u32 = 0;
    let mut i: usize = 0;
    while i < n
        invariant
            n == ps.len(),
            ps == f.params@,
            i <= n,
            deno_thunk_reads(ps.take(i as int), f.name@, *ir) == Ok::<(Seq<char>, Seq<char>, nat, nat), Seq<char>>(
                (text@, names@, offset as nat, idx as nat),
            ),
        decreases n - i,
    {
        assert(ps.take(i + 1).drop_last() =~= ps.take(i as int));
        assert(ps.take(i + 1).last() == ps[i as int]);
        let p: &ResolvedParam = &f.params[i];
        let a: usize = match js_c_align(&p.ty, ir) {
            Ok(a) => a,
            Err(e) => {
                proof {
                    lemma_thunk_reads_err(ps, i + 1, f.name@, *ir);
                }
                return Err(e);
            },
        };
        let o: usize = match align_up_checked(offset, a) {
            Some(o) => o,
            None => {
                proof {
                    lemma_thunk_reads_err(ps, i + 1, f.name@, *ir);
                }
                return Err(unsupported(f.name.as_str()));
            },
        };
        let local: String = match emit_deno_read_local(&mut text, &p.ty, "_argsDv", o, ir, &mut idx, false) {
            Ok(l) => l,
            Err(e) => {
                proof {
                    lemma_thunk_reads_err(ps, i + 1, f.name@, *ir);
                }
                return Err(e);
            },
        };
        let sz: usize = match js_c_size(&p.ty, ir) {
            Ok(sz) => sz,
            Err(e) => {
                proof {
                    lemma_thunk_reads_err(ps, i + 1, f.name@, *ir);
                }
                return Err(e);
            },
        };
        offset = match o.checked_add(sz) {
            Some(v) => v,
            None => {
                proof {
                    lemma_thunk_reads_err(ps, i + 1, f.name@, *ir);
                }
                return Err(unsupported(f.name.as_str()));
            },
        };
        let ghost prev = names@;
        if i > 0 {
            names.append(", ");
        }
        names.append(local.as_str());
        proof {
            if i == 0 {
                assert(names@ =~= local@);
            } else {
                assert(names@ =~= prev + ", "@ + local@);
            }
        }
        i = i + 1;
    }
    assert(ps.take(n as int) =~= ps);
    Ok((text, names))
}

/// The argument reads of a thunk and the list of their locals (none without
/// parameters).
pub open spec fn js_thunk_args(f: ResolvedFunction, ir: ValidatedIr) -> Result<(Seq<char>, Seq<char>), Seq<char>> {
    if f.params@.len() == 0 {
        Ok((Seq::<char>::empty(), Seq::<char>::empty()))
    } else {
        match deno_args_total(f, ir) {
            Err(e) => Err(e),
            Ok(asz) => match deno_thunk_reads(f.params@, f.name@, ir) {
                Err(e) => Err(e),
                Ok(r) => Ok(
                    (
                        "                const _argsDv = new DataView(new Deno.UnsafePointerView(argsPtr!).getArrayBuffer("@ + dec_digits(asz)
                            + "));\n"@ + r.0,
                        r.1,
                    ),
                ),
            },
        }
    }
}

/// The call of the impl method and, for a result, its write through `outPtr`.
pub open spec fn js_thunk_call(f: ResolvedFunction, names: Seq<char>, ir: ValidatedIr) -> Result<Seq<char>, Seq<char>> {
    let m = ts_pascal(f.name@);
    match f.returns {
        None => Ok("                impl."@ + m + "("@ + names + ");\n"@),
        Some(rt) => match js_size(rt, ir.types@, ir.enums@, layout_fuel(ir)) {
            Err(e) => Err(e),
            Ok(rsz) => match deno_write(rt, "_outDv"@, 0, "_result"@, ir, 0, layout_fuel(ir)) {
                Err(e) => Err(e),
                Ok(w) => Ok(
                    "                const _result = impl."@ + m + "("@ + names + ");\n"@
                        + "                const _outDv = new DataView(new Deno.UnsafePointerView(outPtr!).getArrayBuffer("@ + dec_digits(rsz)
                        + "));\n"@ + "                const _allocs: [Deno.PointerValue, number][] = [];\n"@ + w.0
                        + "                void _allocs;\n"@,
                ),
            },
        },
    }
}

/// One native-dispatch thunk of a host contract method: it reads the packed
/// arguments at their C-layout offsets, calls the impl and writes the result.
pub open spec fn js_thunk(f: ResolvedFunction, iface: Seq<char>, ir: ValidatedIr) -> Result<Seq<char>, Seq<char>> {
    match js_thunk_args(f, ir) {
        Err(e) => Err(e),
        Ok(a) => match js_thunk_call(f, a.1, ir) {
            Err(e) => Err(e),
            Ok(c) => Ok(
                "            (impl: contracts."@ + iface + ", argsPtr: Deno.PointerValue, outPtr: Deno.PointerValue): number => {\n"@ + a.0 + c
                    + "                return AbiErrorCode.Ok;\n"@ + "            },\n"@,
            ),
        },
    }
}

/// Emit one native-dispatch thunk for a host contract method; on an error
/// `out` is left unchanged.
pub fn generate_js_host_method_thunk(out: &mut String, func: &ResolvedFunction, iface_name: &str, ir: &ValidatedIr) -> (r: Result<
    (),
    crate::error::CodegenError,
>)
    ensures
        match r {
            Ok(_) => js_thunk(*func, iface_name@, *ir) matches Ok(t) && final(out)@ == old(out)@ + t,
            Err(e) => js_thunk(*func, iface_name@, *ir) matches Err(n) && unsupported_is(e, n) && final(out)@ == old(out)@,
        },
{
    let method_name: String = host_method_pascal_case(func.name.as_str());
    let mut args: String = String::new();
    let mut names: String = String::new();
    if func.params.len() > 0 {
        let asz: usize = match deno_args_total_size(func, ir) {
            Ok(s) => s,
            Err(e) => {
                return Err(e);
            },
        };
        let rn: (String, String) = match thunk_reads(func, ir) {
            Ok(p) => p,
            Err(e) => {
                return Err(e);
            },
        };
        args.append("                const _argsDv = new DataView(new Deno.UnsafePointerView(argsPtr!).getArrayBuffer(");
        push_usize(&mut args, asz);
        args.append("));\n");
        args.append(rn.0.as_str());
        names = rn.1;
        assert(args@ =~= "                const _argsDv = new DataView(new Deno.UnsafePointerView(argsPtr!).getArrayBuffer("@ + dec_digits(
            asz as nat,
        ) + "));\n"@ + rn.0@);
    }
    assert(js_thunk_args(*func, *ir) == Ok::<(Seq<char>, Seq<char>), Seq<char>>((args@, names@)));
    let mut call: String = String::new();
    match &func.returns {
        None => {
            call.append("                impl.");
            call.append(method_name.as_str());
            call.append("(");
            call.append(names.as_str());
            call.append(");\n");
            assert(call@ =~= "                impl."@ + method_name@ + "("@ + names@ + ");\n"@);
        },
        Some(rt) => {
            let rsz: usize = match js_c_size(rt, ir) {
                Ok(s) => s,
                Err(e) => {
                    return Err(e);
                },
            };
            call.append("                const _result = impl.");
            call.append(method_name.as_str());
            call.append("(");
            call.append(names.as_str());
            call.append(");\n");
            call.append("                const _outDv = new DataView(new Deno.UnsafePointerView(outPtr!).getArrayBuffer(");
            push_usize(&mut call, rsz);
            call.append("));\n");
            call.append("                const _allocs: [Deno.PointerValue, number][] = [];\n");
            let ghost c1 = call@;
            let mut idx: u32 = 0;
            match emit_deno_write_value(&mut call, rt, "_outDv", 0, "_result", ir, &mut idx) {
                Ok(_) => {},
                Err(e) => {
                    return Err(e);
                },
            }
            let ghost c2 = call@;
            call.append("                void _allocs;\n");
            assert(c1 =~= "                const _result = impl."@ + method_name@ + "("@ + names@ + ");\n"@
                + "                const _outDv = new DataView(new Deno.UnsafePointerView(outPtr!).getArrayBuffer("@ + dec_digits(rsz as nat)
                + "));\n"@ + "                const _allocs: [Deno.PointerValue, number][] = [];\n"@);
        },
    }
    assert(js_thunk_call(*func, names@, *ir) == Ok::<Seq<char>, Seq<char>>(call@));
    let mut t: String = String::new();
    t.append("            (impl: contracts.");
    t.append(iface_name);
    t.append(", argsPtr: Deno.PointerValue, outPtr: Deno.PointerValue): number => {\n");
    t.append(args.as_str());
    t.append(call.as_str());
    t.append("                return AbiErrorCode.Ok;\n");
    t.append("            },\n");
    assert(t@ =~= "            (impl: contracts."@ + iface_name@ + ", argsPtr: Deno.PointerValue, outPtr: Deno.PointerValue): number => {\n"@
        + args@ + call@ + "                return AbiErrorCode.Ok;\n"@ + "            },\n"@);
    out.append(t.as_str());
    Ok(())
}

/// Every thunk of a host contract, in order.
pub open spec fn js_thunks(funcs: Seq<ResolvedFunction>, iface: Seq<char>, ir: ValidatedIr) -> Result<Seq<char>, Seq<char>>
    decreases funcs.len(),
{
    if funcs.len() == 0 {
        Ok(Seq::<char>::empty())
    } else {
        match js_thunks(funcs.drop_last(), iface, ir) {
            Err(e) => Err(e),
            Ok(p) => match js_thunk(funcs.last(), iface, ir) {
                Err(e) => Err(e),
                Ok(t) => Ok(p + t),
            },
        }
    }
}

proof fn lemma_thunks_err(funcs: Seq<ResolvedFunction>, k: int, iface: Seq<char>, ir: ValidatedIr)
    requires
        0 <= k <= funcs.len(),
        js_thunks(funcs.take(k), iface, ir) is Err,
    ensures
        js_thunks(funcs, iface, ir) == js_thunks(funcs.take(k), iface, ir),
    decreases funcs.len(),
{
    if k == funcs.len() {
        assert(funcs.take(k) =~= funcs);
    } else {
        assert(funcs.drop_last().take(k) =~= funcs.take(k));
        lemma_thunks_err(funcs.drop_last(), k, iface, ir);
    }
}

/// `acc` followed by the doc comment and the start of `create<Iface>Vtable`.
pub open spec fn js_factory_head(acc: Seq<char>, c: ResolvedHostContract) -> Seq<char> {
    let iface = host_class_base(c.name@);
    acc + "/**\n * Build the host contract interface for `"@ + c.name@
        + "` (native dispatch, per-instance).\n * `factory` builds a fresh implementation per instance; the runtime calls it\n * once per non-singleton caller (independent state) or once for a singleton.\n */\n"@
        + "export function create"@ + iface + "Vtable(rt: Runtime, factory: () => contracts."@ + iface + ") {\n"@
        + "    return buildHostContractInterface({\n"@ + "        contractIdLo: 0x"@ + hex_digits((c.contract_id as nat) % 4294967296, 8)
        + ",\n"@ + "        contractIdHi: 0x"@ + hex_digits((c.contract_id as nat) / 4294967296, 8) + ",\n"@ + "        major: "@
        + dec_digits(c.version.major as nat) + ",\n"@ + "        minor: "@ + dec_digits(c.version.minor as nat) + ",\n"@
        + "        singleton: "@ + (if c.singleton {
        "true"@
    } else {
        "false"@
    }) + ",\n"@ + "        factory,\n"@ + "        methods: [\n"@
}

fn push_factory_head(out: &mut String, c: &ResolvedHostContract, iface: &str)
    requires
        iface@ == host_class_base(c.name@),
    ensures
        final(out)@ == js_factory_head(old(out)@, *c),
{
    let lo: u64 = c.contract_id % 4294967296;
    let hi: u64 = c.contract_id / 4294967296;
    assert((lo as u32) as nat == (c.contract_id as nat) % 4294967296);
    assert((hi as u32) as nat == (c.contract_id as nat) / 4294967296);
    out.append("/**\n * Build the host contract interface for `");
    out.append(c.name.as_str());
    out.append(
        "` (native dispatch, per-instance).\n * `factory` builds a fresh implementation per instance; the runtime calls it\n * once per non-singleton caller (independent state) or once for a singleton.\n */\n",
    );
    out.append("export function create");
    out.append(iface);
    out.append("Vtable(rt: Runtime, factory: () => contracts.");
    out.append(iface);
    out.append(") {\n");
    out.append("    return buildHostContractInterface({\n");
    out.append("        contractIdLo: 0x");
    crate::text::push_hex8(out, lo as u32);
    out.append(",\n");
    out.append("        contractIdHi: 0x");
    crate::text::push_hex8(out, hi as u32);
    out.append(",\n");
    out.append("        major: ");
    push_u32(out, c.version.major);
    out.append(",\n");
    out.append("        minor: ");
    push_u32(out, c.version.minor);
    out.append(",\n");
    out.append("        singleton: ");
    if c.singleton {
        out.append("true");
    } else {
        out.append("false");
    }
    out.append(",\n");
    out.append("        factory,\n");
    out.append("        methods: [\n");
}

/// The factory-based provider `create<Iface>Vtable` of one host contract.
pub open spec fn js_factory(c: ResolvedHostContract, ir: ValidatedIr) -> Result<Seq<char>, Seq<char>> {
    match js_thunks(c.functions@, host_class_base(c.name@), ir) {
        Err(e) => Err(e),
        Ok(th) => Ok(js_factory_head(Seq::<char>::empty(), c) + th + "        ],\n"@ + "    });\n"@ + "}\n\n"@),
    }
}

/// Generate the per-contract host interface factory; on an error `out` is
/// left unchanged.
pub fn generate_js_host_interface_factory(out: &mut String, contract: &ResolvedHostContract, ir: &ValidatedIr) -> (r: Result<
    (),
    crate::error::CodegenError,
>)
    ensures
        match r {
            Ok(_) => js_factory(*contract, *ir) matches Ok(t) && final(out)@ == old(out)@ + t,
            Err(e) => js_factory(*contract, *ir) matches Err(n) && unsupported_is(e, n) && final(out)@ == old(out)@,
        },
{
    let iface: String = host_contract_name_to_ts_interface(contract.name.as_str());
    let mut th: String = String::new();
    let n: usize = contract.functions.len();
    let mut i: usize = 0;
    while i < n
        invariant
            n == contract.functions@.len(),
            i <= n,
            iface@ == host_class_base(contract.name@),
            js_thunks(contract.functions@.take(i as int), iface@, *ir) == Ok::<Seq<char>, Seq<char>>(th@),
        decreases n - i,
    {
        assert(contract.functions@.take(i + 1).drop_last() =~= contract.functions@.take(i as int));
        assert(contract.functions@.take(i + 1).last() == contract.functions@[i as int]);
        match generate_js_host_method_thunk(&mut th, &contract.functions[i], iface.as_str(), ir) {
            Ok(_) => {},
            Err(e) => {
                proof {
                    lemma_thunks_err(contract.functions@, i + 1, iface@, *ir);
                }
                return Err(e);
            },
        }
        i = i + 1;
    }
    assert(contract.functions@.take(n as int) =~= contract.functions@);
    let mut t: String = String::new();
    push_factory_head(&mut t, contract, iface.as_str());
    t.append(th.as_str());
    t.append("        ],\n");
    t.append("    });\n");
    t.append("}\n\n");
    out.append(t.as_str());
    Ok(())
}

/// The interface factories file header, imports, error codes and codecs.
pub const JS_FACTORIES_PRELUDE: &'static str = "// THIS FILE IS AUTO-GENERATED BY polyplugc\n// DO NOT EDIT BY HAND\n// Runtime: js-quickjs (host-side interface factories)\n\nimport { buildHostContractInterface } from 'polyplug';\nimport type { Runtime } from 'polyplug';\nimport type * as contracts from './contracts';\n\n// ABI error codes (match polyplug_abi.AbiErrorCode)\nconst AbiErrorCode = {\n    Ok: 0,\n};\n\nconst _encoder = new TextEncoder();\nconst _decoder = new TextDecoder();\n\n";

/// Every host interface factory, in order.
pub open spec fn js_factories(contracts: Seq<ResolvedHostContract>, ir: ValidatedIr) -> Result<Seq<char>, Seq<char>>
    decreases contracts.len(),
{
    if contracts.len() == 0 {
        Ok(Seq::<char>::empty())
    } else {
        match js_factories(contracts.drop_last(), ir) {
            Err(e) => Err(e),
            Ok(p) => match js_factory(contracts.last(), ir) {
                Err(e) => Err(e),
                Ok(f) => Ok(p + f),
            },
        }
    }
}

proof fn lemma_factories_err(contracts: Seq<ResolvedHostContract>, k: int, ir: ValidatedIr)
    requires
        0 <= k <= contracts.len(),
        js_factories(contracts.take(k), ir) is Err,
    ensures
        js_factories(contracts, ir) == js_factories(contracts.take(k), ir),
    decreases contracts.len(),
{
    if k == contracts.len() {
        assert(contracts.take(k) =~= contracts);
    } else {
        assert(contracts.drop_last().take(k) =~= contracts.take(k));
        lemma_factories_err(contracts.drop_last(), k, ir);
    }
}

/// `host/interface_factories.ts`: one factory per host contract.
#[verifier::opaque]
pub open spec fn js_factories_ts(ir: ValidatedIr) -> Result<Seq<char>, Seq<char>> {
    match js_factories(ir.host_contracts@, ir) {
        Err(e) => Err(e),
        Ok(f) => Ok(JS_FACTORIES_PRELUDE@ + f),
    }
}

/// Generate `host/interface_factories.ts`.
pub fn generate_js_host_interface_factories_ts(ir: &ValidatedIr) -> (r: Result<String, crate::error::CodegenError>)
    ensures
        match r {
            Ok(s) => js_factories_ts(*ir) == Ok::<Seq<char>, Seq<char>>(s@),
            Err(e) => js_factories_ts(*ir) matches Err(n) && unsupported_is(e, n),
        },
{
    let mut fs: String = String::new();
    let n: usize = ir.host_contracts.len();
    let mut i: usize = 0;
    while i < n
        invariant
            n == ir.host_contracts@.len(),
            i <= n,
            js_factories(ir.host_contracts@.take(i as int), *ir) == Ok::<Seq<char>, Seq<char>>(fs@),
        decreases n - i,
    {
        assert(ir.host_contracts@.take(i + 1).drop_last() =~= ir.host_contracts@.take(i as int));
        assert(ir.host_contracts@.take(i + 1).last() == ir.host_contracts@[i as int]);
        match generate_js_host_interface_factory(&mut fs, &ir.host_contracts[i], ir) {
            Ok(_) => {},
            Err(e) => {
                proof {
                    lemma_factories_err(ir.host_contracts@, i + 1, *ir);
                }
                proof {
                    reveal(js_factories_ts);
                }
                return Err(e);
            },
        }
        i = i + 1;
    }
    assert(ir.host_contracts@.take(n as int) =~= ir.host_contracts@);
    let mut out: String = JS_FACTORIES_PRELUDE.to_owned();
    out.append(fs.as_str());
    proof {
        reveal(js_factories_ts);
    }
    Ok(out)
}

// ─── The generator ──────────────────────────────────────────────────────────

/// The js-quickjs generator: TypeScript with 64-bit values as lo/hi pairs.
pub struct JsQuickjsGenerator;

/// The files the host side pushes and, when a generator fails, the name it
/// reports; files pushed before the failure stay.
pub open spec fn js_host_outcome(ir: ValidatedIr) -> (Seq<(Seq<char>, Seq<char>, bool)>, Option<Seq<char>>) {
    let types = ("host/types.ts"@, js_types_ts(ir), false);
    match js_callers_ts(ir) {
        Err(n) => (seq![types], Some(n)),
        Ok(c) => {
            let base = seq![types, ("host/callers.ts"@, c, false)];
            if ir.host_contracts@.len() == 0 {
                (base, None)
            } else {
                let contracts = ("host/contracts.ts"@, js_host_contracts_ts(ir), false);
                match js_factories_ts(ir) {
                    Err(n) => (base.push(contracts), Some(n)),
                    Ok(f) => (base.push(contracts).push(("host/interface_factories.ts"@, f, false)), None),
                }
            }
        },
    }
}

/// The guest files from `guest/interface.ts` up to the manifest.
pub open spec fn js_guest_middle(ir: ValidatedIr) -> Seq<(Seq<char>, Seq<char>, bool)> {
    let m = seq![
        ("guest/interface.ts"@, js_interface_ts(ir), false),
        ("guest/init.ts"@, js_init_ts(ir), false),
        ("guest/index.ts"@, js_index_ts(ir), false),
    ];
    if ir.bundle is Some {
        m.push(("manifest.toml"@, js_manifest(ir), true))
    } else {
        m
    }
}

/// The files the guest side pushes and, when a generator fails, the name it
/// reports; files pushed before the failure stay.
pub open spec fn js_guest_outcome(ir: ValidatedIr) -> (Seq<(Seq<char>, Seq<char>, bool)>, Option<Seq<char>>) {
    let types = ("guest/types.ts"@, js_types_ts(ir), false);
    match js_contracts_ts(ir) {
        Err(n) => (seq![types], Some(n)),
        Ok(c) => {
            let s1 = seq![types, ("guest/contracts.ts"@, c, false)] + js_guest_middle(ir);
            let hc: Result<Seq<(Seq<char>, Seq<char>, bool)>, Seq<char>> = if ir.host_contracts@.len() == 0 {
                Ok(s1)
            } else {
                match js_guest_host_contracts_ts(ir) {
                    Err(n) => Err(n),
                    Ok(h) => Ok(s1.push(("guest/host_contracts.ts"@, h, false))),
                }
            };
            match hc {
                Err(n) => (s1, Some(n)),
                Ok(s2) => {
                    let peers = crate::generators::peer_contracts(&ir);
                    let pc: Result<Seq<(Seq<char>, Seq<char>, bool)>, Seq<char>> = if peers.len() == 0 {
                        Ok(s2)
                    } else {
                        match js_guest_peer_callers_ts(ir, peers) {
                            Err(n) => Err(n),
                            Ok(p) => Ok(s2.push(("guest/peer_callers.ts"@, p, false))),
                        }
                    };
                    match pc {
                        Err(n) => (s2, Some(n)),
                        Ok(s3) => (s3.push(("README.md"@, js_readme(ir), false)), None),
                    }
                },
            }
        },
    }
}

impl CodeGenerator for JsQuickjsGenerator {
    #[verifier::rlimit(60)]
    fn generate_host(&self, ir: &ValidatedIr, files: &mut GeneratedFiles) -> (r: Result<(), crate::error::CodegenError>)
        ensures
            files_view(final(files).files@) == files_view(old(files).files@) + js_host_outcome(*ir).0,
            match r {
                Ok(_) => js_host_outcome(*ir).1 is None,
                Err(e) => js_host_outcome(*ir).1 matches Some(n) && unsupported_is(e, n),
            },
    {
        let ghost before = files_view(files.files@);
        push_file(files, "host/types.ts", generate_types_ts(ir), false);
        let callers: String = match generate_callers_ts(ir) {
            Ok(c) => c,
            Err(e) => {
                assert(files_view(files.files@) =~= before + js_host_outcome(*ir).0);
                return Err(e);
            },
        };
        push_file(files, "host/callers.ts", callers, false);
        if ir.host_contracts.len() != 0 {
            push_file(files, "host/contracts.ts", generate_host_contracts_ts(ir), false);
            let factories: String = match generate_js_host_interface_factories_ts(ir) {
                Ok(f) => f,
                Err(e) => {
                    assert(files_view(files.files@) =~= before + js_host_outcome(*ir).0);
                    return Err(e);
                },
            };
            push_file(files, "host/interface_factories.ts", factories, false);
        }
        assert(files_view(files.files@) =~= before + js_host_outcome(*ir).0);
        Ok(())
    }

    #[verifier::rlimit(60)]
    fn generate_guest(&self, ir: &ValidatedIr, files: &mut GeneratedFiles) -> (r: Result<(), crate::error::CodegenError>)
        ensures
            files_view(final(files).files@) == files_view(old(files).files@) + js_guest_outcome(*ir).0,
            match r {
                Ok(_) => js_guest_outcome(*ir).1 is None,
                Err(e) => js_guest_outcome(*ir).1 matches Some(n) && unsupported_is(e, n),
            },
    {
        let ghost before = files_view(files.files@);
        push_file(files, "guest/types.ts", generate_types_ts(ir), false);
        let contracts: String = match generate_contracts_ts(ir) {
            Ok(c) => c,
            Err(e) => {
                assert(files_view(files.files@) =~= before + js_guest_outcome(*ir).0);
                return Err(e);
            },
        };
        push_file(files, "guest/contracts.ts", contracts, false);
        let ghost s0 = files_view(files.files@);
        push_file(files, "guest/interface.ts", generate_interface_ts(ir), false);
        push_file(files, "guest/init.ts", generate_init_ts(ir), false);
        push_file(files, "guest/index.ts", generate_index_ts(ir), false);
        if ir.bundle.is_some() {
            push_file(files, "manifest.toml", generate_manifest_toml(ir), true);
        }
        let ghost s1 = files_view(files.files@);
        assert(s1 =~= s0 + js_guest_middle(*ir));
        if ir.host_contracts.len() != 0 {
            let hc: String = match generate_guest_host_contracts_ts(ir) {
                Ok(h) => h,
                Err(e) => {
                    assert(files_view(files.files@) =~= before + js_guest_outcome(*ir).0);
                    return Err(e);
                },
            };
            push_file(files, "guest/host_contracts.ts", hc, false);
        }
        let ghost s2 = files_view(files.files@);
        let peers: Vec<&ResolvedContract> = crate::generators::collect_peer_contracts(ir);
        assert(derefs(peers@) == crate::generators::peer_contracts(ir));
        if peers.len() != 0 {
            let pc: String = match generate_guest_peer_callers_ts(ir, peers.as_slice()) {
                Ok(p) => p,
                Err(e) => {
                    assert(files_view(files.files@) =~= before + js_guest_outcome(*ir).0);
                    return Err(e);
                },
            };
            push_file(files, "guest/peer_callers.ts", pc, false);
        }
        push_file(files, "README.md", generate_readme_quickjs(ir), false);
        assert(files_view(files.files@) =~= before + js_guest_outcome(*ir).0);
        Ok(())
    }
}

// ─── Layout agreement between the sides of a call ───────────────────────────

/// The out/arg slot a caller allocates for a value has exactly the size and
/// alignment of the value's C layout.
pub proof fn caller_slot_is_c_layout(ty: ResolvedTypeRef, ir: ValidatedIr)
    ensures
        js_slot(ty, ir) matches Ok(sa) ==> js_size(ty, ir.types@, ir.enums@, layout_fuel(ir)) == Ok::<nat, Seq<char>>(sa.0)
            && js_align(ty, ir.types@, ir.enums@, layout_fuel(ir)) == Ok::<nat, Seq<char>>(sa.1),
{
}

/// A guest-side caller packs its arguments at the offsets the peer's
/// dispatch wrapper reads them from: whenever both succeed, the packed
/// arguments end at the same offset, for every prefix of the parameters.
pub proof fn caller_pack_matches_wrapper_reads(params: Seq<ResolvedParam>, fname: Seq<char>, ir: ValidatedIr)
    ensures
        ts_multi_writes(params, fname, ir) matches Ok(w) ==> (js_arg_reads(params, fname, ir) matches Ok(r) ==> w.1 == r.1),
    decreases params.len(),
{
    if params.len() > 0 {
        caller_pack_matches_wrapper_reads(params.drop_last(), fname, ir);
        caller_slot_is_c_layout(params.last().ty, ir);
    }
}

/// The write of a struct's fields is the mirror of their read: whenever both
/// succeed they lay the fields out over the same bytes.
pub proof fn js_write_mirrors_read(
    fs: Seq<ResolvedField>,
    base: Seq<char>,
    off: nat,
    indent: Seq<char>,
    v: Seq<char>,
    sname: Seq<char>,
    ir: ValidatedIr,
    fuel: nat,
)
    ensures
        js_read_fields(fs, base, off, sname, ir, fuel) matches Ok(r) ==> (js_write_fields(fs, indent, base, off, v, sname, ir, fuel) matches Ok(
            w,
        ) ==> r.1 == w.1),
    decreases fs.len(),
{
    if fs.len() > 0 {
        js_write_mirrors_read(fs.drop_last(), base, off, indent, v, sname, ir, fuel);
    }
}

/// A Deno host caller packs its arguments at the offsets the host-side
/// provider thunk reads them from: whenever both succeed, the arguments end
/// at the same offset.
pub proof fn deno_pack_matches_thunk_reads(params: Seq<ResolvedParam>, dv: Seq<char>, fname: Seq<char>, ir: ValidatedIr)
    ensures
        deno_arg_writes(params, dv, fname, ir) matches Ok(w) ==> (deno_thunk_reads(params, fname, ir) matches Ok(r) ==> w.1 == r.2),
    decreases params.len(),
{
    if params.len() > 0 {
        deno_pack_matches_thunk_reads(params.drop_last(), dv, fname, ir);
    }
}

proof fn lemma_size_fields_align(fs: Seq<ResolvedField>, sname: Seq<char>, types: Seq<ResolvedType>, enums: Seq<EnumDef>, fuel: nat)
    ensures
        js_size_fields(fs, sname, types, enums, fuel) matches Ok(p) ==> js_align_fields(fs, types, enums, fuel) == Ok::<
            nat,
            Seq<char>,
        >(p.1),
    decreases fs.len(),
{
    if fs.len() > 0 {
        lemma_size_fields_align(fs.drop_last(), sname, types, enums, fuel);
    }
}

/// The C-layout size of every value is a multiple of its alignment: a
/// struct's size is padded at the tail to its largest field alignment.
pub proof fn c_size_is_multiple_of_align(ty: ResolvedTypeRef, types: Seq<ResolvedType>, enums: Seq<EnumDef>, fuel: nat)
    ensures
        js_size(ty, types, enums, fuel) matches Ok(s) ==> (js_align(ty, types, enums, fuel) matches Ok(a) ==> a > 0 && s % a == 0),
{
    lemma_align_bounds(ty, types, enums, fuel);
    match ty {
        ResolvedTypeRef::Primitive(p) => {
            assert(prim_size(p) % prim_size(p) == 0);
        },
        ResolvedTypeRef::UserDefined(name) => {
            match find_enum(enums, name@) {
                Some(e) => {
                    assert(repr_size(e.repr) % repr_size(e.repr) == 0);
                },
                None => match find_type(types, name@) {
                    Some(st) => {
                        if fuel > 0 {
                            let fl = (fuel - 1) as nat;
                            lemma_size_fields_align(st.fields@, name@, types, enums, fl);
                            lemma_align_fields_bounds(st.fields@, types, enums, fl);
                            match js_size_fields(st.fields@, name@, types, enums, fl) {
                                Ok(p) => {
                                    assert(js_align_fields(st.fields@, types, enums, fl) == Ok::<nat, Seq<char>>(p.1));
                                    assert(p.1 >= 1);
                                    align_to_is_next_multiple(p.0, p.1);
                                },
                                Err(_) => {},
                            }
                        }
                    },
                    None => {},
                },
            }
        },
        _ => {},
    }
}
} // verus!
