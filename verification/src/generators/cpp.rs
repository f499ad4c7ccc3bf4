//! C++ code generator: host-side RAII callers, guest-side `extern "C"`
//! wrappers with abstract base classes and interface statics, host-contract
//! classes, interface factories and peer callers.
use crate::generators::enum_values::{cast_view, substitute_refs, substitute_refs_with};
use crate::generators::lua::{bundle_plugins, derefs, find_impl, impl_key};
use crate::generators::manifest::{bundle_manifest, find_char, render_bundle_manifest, MANIFEST_NO_BUNDLE};
use crate::generators::{
    bundle_dependencies, files_view, host_class_base, host_class_base_of, is_native_runtime, min_version_for,
    push_file, CodeGenerator, GeneratedFiles,
};
use crate::ir::{
    primitive_cpp_name, repr_cpp_name, AbiBuiltin, EnumDef, EnumVariant, ResolvedContract, ResolvedFunction,
    ResolvedHostContract, ResolvedParam, ResolvedType, ResolvedTypeRef, ValidatedIr,
};
use crate::text::{
    capitalise_first, capitalize, dec_digits, dots_to_underscores, hex_digits, pascal, push_hex16, push_pascal,
    push_u32, push_u64, push_usize, replace_chars, lower_str, upper_str, to_lowercase, to_uppercase, chars_of,
};
use vstd::prelude::*;

verus! {

broadcast use vstd::string::group_string_axioms;

// ─── Type names ─────────────────────────────────────────────────────────────

/// The C++ spelling of a type reference in ABI position.
pub open spec fn cpp_type(ty: ResolvedTypeRef) -> Seq<char> {
    match ty {
        ResolvedTypeRef::Primitive(p) => primitive_cpp_name(p),
        ResolvedTypeRef::AbiType(AbiBuiltin::StringView) => "StringView"@,
        ResolvedTypeRef::AbiType(AbiBuiltin::Buffer) => "Buffer"@,
        ResolvedTypeRef::AbiType(AbiBuiltin::Ptr) => "void*"@,
        ResolvedTypeRef::AbiType(AbiBuiltin::Void) => "void"@,
        ResolvedTypeRef::UserDefined(name) => name@,
    }
}

/// The C++ spelling of a type reference in ABI position.
pub fn cpp_type_name(ty: &ResolvedTypeRef) -> (r: String)
    ensures
        r@ == cpp_type(*ty),
{
    match ty {
        ResolvedTypeRef::Primitive(p) => p.cpp_name().to_owned(),
        ResolvedTypeRef::AbiType(AbiBuiltin::StringView) => "StringView".to_owned(),
        ResolvedTypeRef::AbiType(AbiBuiltin::Buffer) => "Buffer".to_owned(),
        ResolvedTypeRef::AbiType(AbiBuiltin::Ptr) => "void*".to_owned(),
        ResolvedTypeRef::AbiType(AbiBuiltin::Void) => "void".to_owned(),
        ResolvedTypeRef::UserDefined(name) => name.as_str().to_owned(),
    }
}

/// The type of a host-contract method parameter (the ABI spelling).
pub fn cpp_host_param_type_name(ty: &ResolvedTypeRef) -> (r: String)
    ensures
        r@ == cpp_type(*ty),
{
    cpp_type_name(ty)
}

/// The return type of a host-contract method (the ABI spelling).
pub fn cpp_host_return_type_name(ty: &ResolvedTypeRef) -> (r: String)
    ensures
        r@ == cpp_type(*ty),
{
    cpp_type_name(ty)
}

/// The type a parameter has inside a guest caller's argument pack (the ABI spelling).
pub fn cpp_guest_caller_abi_type_name(ty: &ResolvedTypeRef) -> (r: String)
    ensures
        r@ == cpp_type(*ty),
{
    cpp_type_name(ty)
}

/// The type a host thunk reads an argument as (the ABI spelling).
pub fn cpp_host_abi_type_name(ty: &ResolvedTypeRef) -> (r: String)
    ensures
        r@ == cpp_type(*ty),
{
    cpp_type_name(ty)
}

/// A guest caller's parameter type: string views as `std::string_view`,
/// user types by const reference.
pub open spec fn cpp_guest_param_type(ty: ResolvedTypeRef) -> Seq<char> {
    match ty {
        ResolvedTypeRef::AbiType(AbiBuiltin::StringView) => "std::string_view"@,
        ResolvedTypeRef::UserDefined(name) => "const "@ + name@ + "&"@,
        _ => cpp_type(ty),
    }
}

/// A guest caller's parameter type.
pub fn cpp_guest_caller_param_type_name(ty: &ResolvedTypeRef) -> (r: String)
    ensures
        r@ == cpp_guest_param_type(*ty),
{
    match ty {
        ResolvedTypeRef::AbiType(AbiBuiltin::StringView) => "std::string_view".to_owned(),
        ResolvedTypeRef::UserDefined(name) => {
            let mut r: String = String::new();
            r.append("const ");
            r.append(name.as_str());
            r.append("&");
            r
        },
        _ => cpp_type_name(ty),
    }
}

/// A guest caller's return type: borrowed views for host-owned strings and buffers.
pub open spec fn cpp_guest_return_type(ty: ResolvedTypeRef) -> Seq<char> {
    match ty {
        ResolvedTypeRef::AbiType(AbiBuiltin::StringView) => "std::string_view"@,
        ResolvedTypeRef::AbiType(AbiBuiltin::Buffer) => "std::span<const std::uint8_t>"@,
        _ => cpp_type(ty),
    }
}

/// A guest caller's return type.
pub fn cpp_guest_caller_return_type_name(ty: &ResolvedTypeRef) -> (r: String)
    ensures
        r@ == cpp_guest_return_type(*ty),
{
    match ty {
        ResolvedTypeRef::AbiType(AbiBuiltin::StringView) => "std::string_view".to_owned(),
        ResolvedTypeRef::AbiType(AbiBuiltin::Buffer) => "std::span<const std::uint8_t>".to_owned(),
        _ => cpp_type_name(ty),
    }
}

/// The type of the `out` local of a guest caller: always the ABI struct.
pub open spec fn cpp_guest_out_local_type(ty: ResolvedTypeRef) -> Seq<char> {
    match ty {
        ResolvedTypeRef::AbiType(AbiBuiltin::StringView) => "StringView"@,
        ResolvedTypeRef::AbiType(AbiBuiltin::Buffer) => "Buffer"@,
        _ => cpp_guest_return_type(ty),
    }
}

/// The type of the `out` local of a guest caller.
pub fn cpp_guest_caller_out_local_type_name(ty: &ResolvedTypeRef) -> (r: String)
    ensures
        r@ == cpp_guest_out_local_type(*ty),
{
    match ty {
        ResolvedTypeRef::AbiType(AbiBuiltin::StringView) => "StringView".to_owned(),
        ResolvedTypeRef::AbiType(AbiBuiltin::Buffer) => "Buffer".to_owned(),
        _ => cpp_guest_caller_return_type_name(ty),
    }
}

/// The null-safe view a guest caller returns for host-owned strings and buffers.
pub open spec fn cpp_guest_return(ty: ResolvedTypeRef) -> Seq<char> {
    match ty {
        ResolvedTypeRef::AbiType(AbiBuiltin::StringView) => "polyplug::to_string_view(out)"@,
        ResolvedTypeRef::AbiType(AbiBuiltin::Buffer) => "out.ptr ? std::span<const std::uint8_t>(out.ptr, out.len) : std::span<const std::uint8_t>{}"@,
        _ => "out"@,
    }
}

/// The expression a guest caller returns, given the filled `out` local.
pub fn cpp_guest_caller_return_expr(ty: &ResolvedTypeRef) -> (r: String)
    ensures
        r@ == cpp_guest_return(*ty),
{
    match ty {
        ResolvedTypeRef::AbiType(AbiBuiltin::StringView) => "polyplug::to_string_view(out)".to_owned(),
        ResolvedTypeRef::AbiType(AbiBuiltin::Buffer) => "out.ptr ? std::span<const std::uint8_t>(out.ptr, out.len) : std::span<const std::uint8_t>{}".to_owned(),
        _ => "out".to_owned(),
    }
}

/// The return type of a function: its type, or `void`.
pub open spec fn cpp_ret(ret: Option<ResolvedTypeRef>) -> Seq<char> {
    match ret {
        Some(t) => cpp_type(t),
        None => "void"@,
    }
}

fn cpp_ret_name(ret: &Option<ResolvedTypeRef>) -> (r: String)
    ensures
        r@ == cpp_ret(*ret),
{
    match ret {
        Some(t) => cpp_type_name(t),
        None => "void".to_owned(),
    }
}

/// Whether a function returns nothing (no type, or `void`).
pub open spec fn is_void_ret(ret: Option<ResolvedTypeRef>) -> bool {
    ret is None || ret == Some(ResolvedTypeRef::AbiType(AbiBuiltin::Void))
}

fn is_void_return(ret: &Option<ResolvedTypeRef>) -> (r: bool)
    ensures
        r == is_void_ret(*ret),
{
    match ret {
        None => true,
        Some(ResolvedTypeRef::AbiType(AbiBuiltin::Void)) => true,
        _ => false,
    }
}

// ─── Names ──────────────────────────────────────────────────────────────────

/// `image.decode` -> `ImageDecodeContract`.
pub open spec fn cpp_class(name: Seq<char>) -> Seq<char> {
    pascal(name, '.') + "Contract"@
}

/// `image.decode` -> `ImageDecodeContract`.
pub fn contract_name_to_class(name: &str) -> (r: String)
    ensures
        r@ == cpp_class(name@),
{
    let v: Vec<char> = chars_of(name);
    let mut r: String = String::new();
    push_pascal(&mut r, &v, '.');
    r.append("Contract");
    r
}

/// `test.add` -> `TestAddGuestContract`.
pub open spec fn cpp_guest_class(name: Seq<char>) -> Seq<char> {
    pascal(name, '.') + "GuestContract"@
}

/// `test.add` -> `TestAddGuestContract`.
pub fn contract_name_to_guest_contract_class(name: &str) -> (r: String)
    ensures
        r@ == cpp_guest_class(name@),
{
    let v: Vec<char> = chars_of(name);
    let mut r: String = String::new();
    push_pascal(&mut r, &v, '.');
    r.append("GuestContract");
    r
}

/// `test.add` -> `test_add`.
pub open spec fn lower_snake(name: Seq<char>) -> Seq<char> {
    replace_chars(name, seq!['.'], '_')
}

/// `test.add` -> `test_add`.
pub fn contract_name_to_lower_snake(name: &str) -> (r: String)
    ensures
        r@ == lower_snake(name@),
{
    dots_to_underscores(name)
}

/// `test.add` -> `TEST_ADD`.
pub open spec fn upper_snake(name: Seq<char>) -> Seq<char> {
    upper_str(lower_snake(name))
}

/// `test.add` -> `TEST_ADD`.
pub fn contract_name_to_upper_snake(name: &str) -> (r: String)
    ensures
        r@ == upper_snake(name@),
{
    let s: String = dots_to_underscores(name);
    to_uppercase(s.as_str())
}

/// The abstract class a host implements for a host contract.
pub fn host_contract_name_to_cpp_trait(name: &str) -> (r: String)
    ensures
        r@ == host_class_base(name@),
{
    host_class_base_of(name)
}

/// The class a guest calls a host contract through.
pub open spec fn cpp_host_caller(name: Seq<char>) -> Seq<char> {
    host_class_base(name) + "Contract"@
}

/// The class a guest calls a host contract through.
pub fn host_contract_name_to_cpp_caller(name: &str) -> (r: String)
    ensures
        r@ == cpp_host_caller(name@),
{
    let mut r: String = host_class_base_of(name);
    r.append("Contract");
    r
}

/// A plugin name upper-cased with dots as underscores.
pub open spec fn plugin_upper(name: Seq<char>) -> Seq<char> {
    replace_chars(upper_str(name), seq!['.'], '_')
}

/// A plugin name lower-cased with dots as underscores.
pub open spec fn plugin_lower(name: Seq<char>) -> Seq<char> {
    replace_chars(lower_str(name), seq!['.'], '_')
}

fn plugin_upper_of(name: &str) -> (r: String)
    ensures
        r@ == plugin_upper(name@),
{
    let u: String = to_uppercase(name);
    dots_to_underscores(u.as_str())
}

fn plugin_lower_of(name: &str) -> (r: String)
    ensures
        r@ == plugin_lower(name@),
{
    let l: String = to_lowercase(name);
    dots_to_underscores(l.as_str())
}

// ─── Parameter lists ────────────────────────────────────────────────────────

/// How a parameter appears in a list: 0 an abstract-method declaration (user
/// types by const reference), 1 a plain declaration, 2 a guest-caller
/// declaration, 3 a read from `packed`, 4 a guest-caller pack initialiser,
/// 5 its name.
pub open spec fn param_piece(p: ResolvedParam, kind: nat) -> Seq<char> {
    if kind == 0 {
        match p.ty {
            ResolvedTypeRef::UserDefined(_) => "const "@ + cpp_type(p.ty) + "& "@ + p.name@,
            _ => cpp_type(p.ty) + " "@ + p.name@,
        }
    } else if kind == 1 {
        cpp_type(p.ty) + " "@ + p.name@
    } else if kind == 2 {
        cpp_guest_param_type(p.ty) + " "@ + p.name@
    } else if kind == 3 {
        "packed->"@ + p.name@
    } else if kind == 4 {
        match p.ty {
            ResolvedTypeRef::AbiType(AbiBuiltin::StringView) => "StringView{ reinterpret_cast<const uint8_t*>("@ + p.name@
                + ".data()), "@ + p.name@ + ".size() }"@,
            _ => p.name@,
        }
    } else {
        p.name@
    }
}

fn push_param_piece(out: &mut String, p: &ResolvedParam, kind: u8)
    ensures
        final(out)@ == old(out)@ + param_piece(*p, kind as nat),
{
    if kind == 0 {
        match &p.ty {
            ResolvedTypeRef::UserDefined(_) => {
                let t: String = cpp_type_name(&p.ty);
                out.append("const ");
                out.append(t.as_str());
                out.append("& ");
                out.append(p.name.as_str());
            },
            _ => {
                let t: String = cpp_type_name(&p.ty);
                out.append(t.as_str());
                out.append(" ");
                out.append(p.name.as_str());
            },
        }
    } else if kind == 1 {
        let t: String = cpp_type_name(&p.ty);
        out.append(t.as_str());
        out.append(" ");
        out.append(p.name.as_str());
    } else if kind == 2 {
        let t: String = cpp_guest_caller_param_type_name(&p.ty);
        out.append(t.as_str());
        out.append(" ");
        out.append(p.name.as_str());
    } else if kind == 3 {
        out.append("packed->");
        out.append(p.name.as_str());
    } else if kind == 4 {
        match &p.ty {
            ResolvedTypeRef::AbiType(AbiBuiltin::StringView) => {
                out.append("StringView{ reinterpret_cast<const uint8_t*>(");
                out.append(p.name.as_str());
                out.append(".data()), ");
                out.append(p.name.as_str());
                out.append(".size() }");
            },
            _ => {
                out.append(p.name.as_str());
            },
        }
    } else {
        out.append(p.name.as_str());
    }
}

/// The pieces of `params` joined with `", "`.
pub open spec fn join_pieces(params: Seq<ResolvedParam>, kind: nat) -> Seq<char>
    decreases params.len(),
{
    if params.len() == 0 {
        Seq::<char>::empty()
    } else if params.len() == 1 {
        param_piece(params[0], kind)
    } else {
        join_pieces(params.drop_last(), kind) + ", "@ + param_piece(params.last(), kind)
    }
}

fn push_joined(out: &mut String, params: &Vec<ResolvedParam>, kind: u8)
    ensures
        final(out)@ == old(out)@ + join_pieces(params@, kind as nat),
{
    let n: usize = params.len();
    let mut i: usize = 0;
    while i < n
        invariant
            n == params@.len(),
            i <= n,
            out@ == old(out)@ + join_pieces(params@.take(i as int), kind as nat),
        decreases n - i,
    {
        if i > 0 {
            out.append(", ");
        }
        push_param_piece(out, &params[i], kind);
        proof {
            assert(params@.take(i + 1).drop_last() =~= params@.take(i as int));
            if i == 0 {
                assert(join_pieces(params@.take(0), kind as nat) =~= Seq::<char>::empty());
            }
        }
        i = i + 1;
    }
    assert(params@.take(n as int) =~= params@);
}

/// ` <type> <name>;` for every parameter, the ABI spelling of each type.
pub open spec fn struct_fields(params: Seq<ResolvedParam>) -> Seq<char>
    decreases params.len(),
{
    if params.len() == 0 {
        Seq::<char>::empty()
    } else {
        struct_fields(params.drop_last()) + " "@ + cpp_type(params.last().ty) + " "@ + params.last().name@ + ";"@
    }
}

fn push_struct_fields(out: &mut String, params: &Vec<ResolvedParam>)
    ensures
        final(out)@ == old(out)@ + struct_fields(params@),
{
    let n: usize = params.len();
    let mut i: usize = 0;
    while i < n
        invariant
            n == params@.len(),
            i <= n,
            out@ == old(out)@ + struct_fields(params@.take(i as int)),
        decreases n - i,
    {
        let t: String = cpp_type_name(&params[i].ty);
        out.append(" ");
        out.append(t.as_str());
        out.append(" ");
        out.append(params[i].name.as_str());
        out.append(";");
        assert(params@.take(i + 1).drop_last() =~= params@.take(i as int));
        i = i + 1;
    }
    assert(params@.take(n as int) =~= params@);
}

// ─── contracts.hpp and host_contracts.hpp classes ───────────────────────────

/// One pure virtual method (user-type parameters by const reference).
pub open spec fn cpp_abstract_method(acc: Seq<char>, func: ResolvedFunction) -> Seq<char> {
    acc + "    virtual "@ + cpp_ret(func.returns) + " "@ + func.name@ + "("@ + join_pieces(func.params@, 0) + ") = 0;\n"@
}

/// Emit the pure virtual method of a guest contract function.
pub fn generate_cpp_guest_abstract_method(out: &mut String, func: &ResolvedFunction)
    ensures
        final(out)@ == cpp_abstract_method(old(out)@, *func),
{
    let ret: String = cpp_ret_name(&func.returns);
    out.append("    virtual ");
    out.append(ret.as_str());
    out.append(" ");
    out.append(func.name.as_str());
    out.append("(");
    push_joined(out, &func.params, 0);
    out.append(") = 0;\n");
}

/// Emit the pure virtual method of a host contract function.
pub fn generate_cpp_host_trait_method(out: &mut String, func: &ResolvedFunction)
    ensures
        final(out)@ == cpp_abstract_method(old(out)@, *func),
{
    generate_cpp_guest_abstract_method(out, func);
}

/// The pure virtual methods of `funcs`.
pub open spec fn cpp_abstract_methods(acc: Seq<char>, funcs: Seq<ResolvedFunction>) -> Seq<char>
    decreases funcs.len(),
{
    if funcs.len() == 0 {
        acc
    } else {
        cpp_abstract_method(cpp_abstract_methods(acc, funcs.drop_last()), funcs.last())
    }
}

fn push_abstract_methods(out: &mut String, funcs: &Vec<ResolvedFunction>)
    ensures
        final(out)@ == cpp_abstract_methods(old(out)@, funcs@),
{
    let n: usize = funcs.len();
    let mut i: usize = 0;
    while i < n
        invariant
            n == funcs@.len(),
            i <= n,
            out@ == cpp_abstract_methods(old(out)@, funcs@.take(i as int)),
        decreases n - i,
    {
        generate_cpp_guest_abstract_method(out, &funcs[i]);
        assert(funcs@.take(i + 1).drop_last() =~= funcs@.take(i as int));
        i = i + 1;
    }
    assert(funcs@.take(n as int) =~= funcs@);
}

/// The abstract plugin base class of a guest contract.
pub open spec fn cpp_guest_contract_class(acc: Seq<char>, contract: ResolvedContract) -> Seq<char> {
    let c = cpp_guest_class(contract.name@);
    cpp_abstract_methods(
        acc + "/// Abstract plugin base for contract `"@ + contract.name@ + "` (id=0x"@ + hex_digits(contract.contract_id as nat, 16)
            + ")\n"@ + "class "@ + c + " {\npublic:\n"@ + "    virtual ~"@ + c + "() = default;\n"@,
        contract.functions@,
    ) + "};\n\n"@
}

/// Emit the abstract plugin base class of a guest contract.
pub fn generate_cpp_guest_contract_class(out: &mut String, contract: &ResolvedContract)
    ensures
        final(out)@ == cpp_guest_contract_class(old(out)@, *contract),
{
    let c: String = contract_name_to_guest_contract_class(contract.name.as_str());
    out.append("/// Abstract plugin base for contract `");
    out.append(contract.name.as_str());
    out.append("` (id=0x");
    push_hex16(out, contract.contract_id);
    out.append(")\n");
    out.append("class ");
    out.append(c.as_str());
    out.append(" {\npublic:\n");
    out.append("    virtual ~");
    out.append(c.as_str());
    out.append("() = default;\n");
    push_abstract_methods(out, &contract.functions);
    out.append("};\n\n");
}

/// The abstract class a host implements for a host contract.
pub open spec fn cpp_host_contract_trait(acc: Seq<char>, contract: ResolvedHostContract) -> Seq<char> {
    let c = host_class_base(contract.name@);
    cpp_abstract_methods(
        acc + "/// Host abstract class for contract `"@ + contract.name@ + "` (id=0x"@ + hex_digits(contract.contract_id as nat, 16)
            + ")\n"@ + "/// Hosts implement this class to provide functionality to plugins.\n"@ + "class "@ + c
            + " {\npublic:\n"@ + "    virtual ~"@ + c + "() = default;\n"@,
        contract.functions@,
    ) + "};\n\n"@
}

/// Emit the abstract class a host implements for a host contract.
pub fn generate_cpp_host_contract_trait(out: &mut String, contract: &ResolvedHostContract)
    ensures
        final(out)@ == cpp_host_contract_trait(old(out)@, *contract),
{
    let c: String = host_contract_name_to_cpp_trait(contract.name.as_str());
    out.append("/// Host abstract class for contract `");
    out.append(contract.name.as_str());
    out.append("` (id=0x");
    push_hex16(out, contract.contract_id);
    out.append(")\n");
    out.append("/// Hosts implement this class to provide functionality to plugins.\n");
    out.append("class ");
    out.append(c.as_str());
    out.append(" {\npublic:\n");
    out.append("    virtual ~");
    out.append(c.as_str());
    out.append("() = default;\n");
    push_abstract_methods(out, &contract.functions);
    out.append("};\n\n");
}

/// The first lines of every generated header.
pub const CPP_API_HEADER: &'static str = "// THIS FILE IS AUTO-GENERATED BY polyplugc. DO NOT EDIT.\n// Re-generate with: polyplugc generate --api api.toml --lang cpp --out <dir>\n#pragma once\n";

/// The first lines of the headers generated from a bundle.
pub const CPP_BUNDLE_HEADER: &'static str = "// THIS FILE IS AUTO-GENERATED BY polyplugc. DO NOT EDIT.\n// Re-generate with: polyplugc generate --bundle bundle.toml --lang cpp --out <dir>\n#pragma once\n";

/// The plugin-side namespace opening.
pub const CPP_PLUGIN_NS: &'static str = "namespace polyplug_plugin {\n\nusing namespace polyplug_generated;\n\n";

/// The host-side namespace opening.
pub const CPP_HOST_NS: &'static str = "namespace polyplug_host {\n\nusing namespace polyplug_generated;\n\n";

/// The abstract base classes of every guest contract.
pub open spec fn cpp_guest_contract_classes(acc: Seq<char>, contracts: Seq<ResolvedContract>) -> Seq<char>
    decreases contracts.len(),
{
    if contracts.len() == 0 {
        acc
    } else {
        cpp_guest_contract_class(cpp_guest_contract_classes(acc, contracts.drop_last()), contracts.last())
    }
}

/// `guest/contracts.hpp`: an abstract base class per guest contract.
pub open spec fn cpp_contracts_hpp(ir: ValidatedIr) -> Seq<char> {
    cpp_guest_contract_classes(
        CPP_API_HEADER@ + "#include \"types.hpp\"\n"@ + "#include <cstdint>\n\n"@ + CPP_PLUGIN_NS@
            + "struct RuntimeError { uint32_t code; };\n\n"@,
        ir.contracts@,
    ) + "}  // namespace polyplug_plugin\n"@
}

/// Generate `guest/contracts.hpp`.
pub fn generate_contracts_hpp(ir: &ValidatedIr) -> (r: String)
    ensures
        r@ == cpp_contracts_hpp(*ir),
{
    let mut out: String = String::new();
    out.append(CPP_API_HEADER);
    out.append("#include \"types.hpp\"\n");
    out.append("#include <cstdint>\n\n");
    out.append(CPP_PLUGIN_NS);
    out.append("struct RuntimeError { uint32_t code; };\n\n");
    let ghost s0 = out@;
    let n: usize = ir.contracts.len();
    let mut i: usize = 0;
    while i < n
        invariant
            n == ir.contracts@.len(),
            i <= n,
            out@ == cpp_guest_contract_classes(s0, ir.contracts@.take(i as int)),
        decreases n - i,
    {
        generate_cpp_guest_contract_class(&mut out, &ir.contracts[i]);
        assert(ir.contracts@.take(i + 1).drop_last() =~= ir.contracts@.take(i as int));
        i = i + 1;
    }
    assert(ir.contracts@.take(n as int) =~= ir.contracts@);
    out.append("}  // namespace polyplug_plugin\n");
    out
}

// ─── types.hpp ──────────────────────────────────────────────────────────────

/// Replace references to declared variants in a value expression by a cast
/// of the scoped enumerator to the repr type.
pub fn substitute_variant_refs_cpp(declared_variants: &Vec<EnumVariant>, expr: &str, enum_name: &str, repr_cpp: &str) -> (r: String)
    ensures
        r@ == substitute_refs(declared_variants@, expr@, Some((repr_cpp@, enum_name@))),
{
    substitute_refs_with(declared_variants, expr, Some((repr_cpp, enum_name)))
}

/// One `    <Name> = <value>,` line per variant.
pub open spec fn cpp_enum_entries(acc: Seq<char>, e: EnumDef, vars: Seq<EnumVariant>) -> Seq<char>
    decreases vars.len(),
{
    if vars.len() == 0 {
        acc
    } else {
        cpp_enum_entries(acc, e, vars.drop_last()) + "    "@ + vars.last().name@ + " = "@ + substitute_refs(
            e.variants@,
            vars.last().value@,
            Some((repr_cpp_name(e.repr), e.name@)),
        ) + ",\n"@
    }
}

/// A contract enum as a scoped C++ enum, with bit operators for bit flags.
pub open spec fn cpp_enum(acc: Seq<char>, e: EnumDef) -> Seq<char> {
    let r = repr_cpp_name(e.repr);
    let n = e.name@;
    let body = cpp_enum_entries(
        acc + "/// Enum `"@ + n + "` (repr: "@ + r + ")\n"@ + "enum class "@ + n + " : "@ + r + " {\n"@,
        e,
        e.variants@,
    ) + "};\n"@;
    if e.bitflag {
        body + "inline "@ + n + " operator|("@ + n + "  a, "@ + n + " b) { return static_cast<"@ + n + ">(static_cast<"@ + r
            + ">(a) | static_cast<"@ + r + ">(b)); }\n"@ + "inline "@ + n + " operator&("@ + n + " a, "@ + n
            + " b) { return static_cast<"@ + n + ">(static_cast<"@ + r + ">(a) & static_cast<"@ + r + ">(b)); }\n"@
            + "inline "@ + n + " operator~("@ + n + " a) { return static_cast<"@ + n + ">(~static_cast<"@ + r
            + ">(a)); }\n"@ + "\n"@
    } else {
        body + "\n"@
    }
}

/// Emit a contract enum as a scoped C++ enum.
pub fn generate_cpp_enum(out: &mut String, e: &EnumDef)
    ensures
        final(out)@ == cpp_enum(old(out)@, *e),
{
    let r: &str = e.repr.cpp_name();
    let n: &str = e.name.as_str();
    out.append("/// Enum `");
    out.append(n);
    out.append("` (repr: ");
    out.append(r);
    out.append(")\n");
    out.append("enum class ");
    out.append(n);
    out.append(" : ");
    out.append(r);
    out.append(" {\n");
    let ghost s0 = out@;
    let k: usize = e.variants.len();
    let mut i: usize = 0;
    while i < k
        invariant
            k == e.variants@.len(),
            i <= k,
            r@ == repr_cpp_name(e.repr),
            n@ == e.name@,
            out@ == cpp_enum_entries(s0, *e, e.variants@.take(i as int)),
        decreases k - i,
    {
        let v: String = substitute_variant_refs_cpp(&e.variants, e.variants[i].value.as_str(), n, r);
        out.append("    ");
        out.append(e.variants[i].name.as_str());
        out.append(" = ");
        out.append(v.as_str());
        out.append(",\n");
        assert(e.variants@.take(i + 1).drop_last() =~= e.variants@.take(i as int));
        i = i + 1;
    }
    assert(e.variants@.take(k as int) =~= e.variants@);
    out.append("};\n");
    if e.bitflag {
        out.append("inline ");
        out.append(n);
        out.append(" operator|(");
        out.append(n);
        out.append("  a, ");
        out.append(n);
        out.append(" b) { return static_cast<");
        out.append(n);
        out.append(">(static_cast<");
        out.append(r);
        out.append(">(a) | static_cast<");
        out.append(r);
        out.append(">(b)); }\n");
        out.append("inline ");
        out.append(n);
        out.append(" operator&(");
        out.append(n);
        out.append(" a, ");
        out.append(n);
        out.append(" b) { return static_cast<");
        out.append(n);
        out.append(">(static_cast<");
        out.append(r);
        out.append(">(a) & static_cast<");
        out.append(r);
        out.append(">(b)); }\n");
        out.append("inline ");
        out.append(n);
        out.append(" operator~(");
        out.append(n);
        out.append(" a) { return static_cast<");
        out.append(n);
        out.append(">(~static_cast<");
        out.append(r);
        out.append(">(a)); }\n");
    }
    out.append("\n");
}

/// `    <type> <name>;` for every field.
pub open spec fn cpp_type_fields(acc: Seq<char>, fields: Seq<crate::ir::ResolvedField>) -> Seq<char>
    decreases fields.len(),
{
    if fields.len() == 0 {
        acc
    } else {
        cpp_type_fields(acc, fields.drop_last()) + "    "@ + cpp_type(fields.last().ty) + " "@ + fields.last().name@ + ";\n"@
    }
}

/// A user type as a C++ struct.
pub open spec fn cpp_struct(acc: Seq<char>, ty: ResolvedType) -> Seq<char> {
    cpp_type_fields(
        acc + "/// User-defined type `"@ + ty.name@ + "`\n"@ + "struct "@ + ty.name@ + " {\n"@,
        ty.fields@,
    ) + "};\n\n"@
}

/// Emit a user type as a C++ struct.
pub fn generate_cpp_type(out: &mut String, ty: &ResolvedType)
    ensures
        final(out)@ == cpp_struct(old(out)@, *ty),
{
    out.append("/// User-defined type `");
    out.append(ty.name.as_str());
    out.append("`\n");
    out.append("struct ");
    out.append(ty.name.as_str());
    out.append(" {\n");
    let ghost s0 = out@;
    let n: usize = ty.fields.len();
    let mut i: usize = 0;
    while i < n
        invariant
            n == ty.fields@.len(),
            i <= n,
            out@ == cpp_type_fields(s0, ty.fields@.take(i as int)),
        decreases n - i,
    {
        let t: String = cpp_type_name(&ty.fields[i].ty);
        out.append("    ");
        out.append(t.as_str());
        out.append(" ");
        out.append(ty.fields[i].name.as_str());
        out.append(";\n");
        assert(ty.fields@.take(i + 1).drop_last() =~= ty.fields@.take(i as int));
        i = i + 1;
    }
    assert(ty.fields@.take(n as int) =~= ty.fields@);
    out.append("};\n\n");
}

/// `constexpr uint64_t <NAME>_CONTRACT_ID = 0x<id>;` for every guest contract.
pub open spec fn cpp_contract_ids(acc: Seq<char>, contracts: Seq<ResolvedContract>) -> Seq<char>
    decreases contracts.len(),
{
    if contracts.len() == 0 {
        acc
    } else {
        let c = contracts.last();
        cpp_contract_ids(acc, contracts.drop_last()) + "constexpr uint64_t "@ + crate::generators::lua::lua_contract_upper(c.name@)
            + "_CONTRACT_ID = 0x"@ + hex_digits(c.contract_id as nat, 16) + ";\n"@
    }
}

/// Every enum as a scoped C++ enum.
pub open spec fn cpp_enums(acc: Seq<char>, enums: Seq<EnumDef>) -> Seq<char>
    decreases enums.len(),
{
    if enums.len() == 0 {
        acc
    } else {
        cpp_enum(cpp_enums(acc, enums.drop_last()), enums.last())
    }
}

/// Every user type as a C++ struct.
pub open spec fn cpp_structs(acc: Seq<char>, types: Seq<ResolvedType>) -> Seq<char>
    decreases types.len(),
{
    if types.len() == 0 {
        acc
    } else {
        cpp_struct(cpp_structs(acc, types.drop_last()), types.last())
    }
}

/// `types.hpp`: contract ids, enums and user types.
pub open spec fn cpp_types_hpp(ir: ValidatedIr) -> Seq<char> {
    cpp_structs(
        cpp_enums(
            cpp_contract_ids(
                CPP_API_HEADER@ + "#include <cstdint>\n"@ + "#include \"polyplug/abi.hpp\"\n\n"@
                    + "namespace polyplug_generated {\n\n"@,
                ir.contracts@,
            ) + "\n"@,
            ir.enums@,
        ),
        ir.types@,
    ) + "}  // namespace polyplug_generated\n"@
}

/// Generate `types.hpp` for host and guest alike.
pub fn generate_types_hpp(ir: &ValidatedIr) -> (r: String)
    ensures
        r@ == cpp_types_hpp(*ir),
{
    let mut out: String = String::new();
    out.append(CPP_API_HEADER);
    out.append("#include <cstdint>\n");
    out.append("#include \"polyplug/abi.hpp\"\n\n");
    out.append("namespace polyplug_generated {\n\n");
    let ghost s0 = out@;
    let n: usize = ir.contracts.len();
    let mut i: usize = 0;
    while i < n
        invariant
            n == ir.contracts@.len(),
            i <= n,
            out@ == cpp_contract_ids(s0, ir.contracts@.take(i as int)),
        decreases n - i,
    {
        let upper: String = crate::generators::lua::contract_upper_name(ir.contracts[i].name.as_str());
        out.append("constexpr uint64_t ");
        out.append(upper.as_str());
        out.append("_CONTRACT_ID = 0x");
        push_hex16(&mut out, ir.contracts[i].contract_id);
        out.append(";\n");
        assert(ir.contracts@.take(i + 1).drop_last() =~= ir.contracts@.take(i as int));
        i = i + 1;
    }
    assert(ir.contracts@.take(n as int) =~= ir.contracts@);
    out.append("\n");
    let ghost s1 = out@;
    let ne: usize = ir.enums.len();
    let mut j: usize = 0;
    while j < ne
        invariant
            ne == ir.enums@.len(),
            j <= ne,
            out@ == cpp_enums(s1, ir.enums@.take(j as int)),
        decreases ne - j,
    {
        generate_cpp_enum(&mut out, &ir.enums[j]);
        assert(ir.enums@.take(j + 1).drop_last() =~= ir.enums@.take(j as int));
        j = j + 1;
    }
    assert(ir.enums@.take(ne as int) =~= ir.enums@);
    let ghost s2 = out@;
    let nt: usize = ir.types.len();
    let mut k: usize = 0;
    while k < nt
        invariant
            nt == ir.types@.len(),
            k <= nt,
            out@ == cpp_structs(s2, ir.types@.take(k as int)),
        decreases nt - k,
    {
        generate_cpp_type(&mut out, &ir.types[k]);
        assert(ir.types@.take(k + 1).drop_last() =~= ir.types@.take(k as int));
        k = k + 1;
    }
    assert(ir.types@.take(nt as int) =~= ir.types@);
    out.append("}  // namespace polyplug_generated\n");
    out
}

/// The start of a guest ABI wrapper body.
pub const CPP_ABI_WRAPPER_TRY: &'static str = "    // Instance is ignored for stateless plugins (instance.data is nullptr).\n    // For stateful plugins, users override create_instance and use instance.data.\n    (void)instance;  // Suppress unused warning for stateless plugins.\n    try {\n";

/// A guest ABI wrapper rejecting a null argument pointer.
pub const CPP_ABI_ARGS_NULL: &'static str = "        if (args == nullptr) {\n            return AbiError{static_cast<uint32_t>(AbiErrorCode::InvalidPointer), StringView{nullptr, 0}};\n        }\n";

/// A guest ABI wrapper rejecting a null out pointer.
pub const CPP_ABI_OUT_NULL: &'static str = "        if (out == nullptr) {\n            return AbiError{static_cast<uint32_t>(AbiErrorCode::InvalidPointer), StringView{nullptr, 0}};\n        }\n";

/// The success return of a wrapper of a function returning nothing.
pub const CPP_ABI_VOID_TAIL: &'static str = "        // SAFETY: out pointer is not dereferenced for void return per ABI contract.\n        (void)out;\n        return AbiError{static_cast<uint32_t>(AbiErrorCode::Ok), StringView{nullptr, 0}};\n";

/// The exception handlers closing a guest ABI wrapper.
pub const CPP_ABI_CATCH: &'static str = "    } catch (const std::exception&) {\n        // The AbiError message must outlive this stack frame; the host never frees it.\n        // e.what() points into the (about-to-be-destroyed) exception object, so we\n        // return a static literal instead of a dangling pointer.\n        // SAFETY: err_msg is a static constexpr string literal with known length 26.\n        static constexpr const char* err_msg = \"guest threw std::exception\";\n        return AbiError{static_cast<uint32_t>(AbiErrorCode::Generic), StringView{reinterpret_cast<const uint8_t*>(err_msg), 26}};\n    } catch (...) {\n        // SAFETY: panic_msg is a static constexpr string literal with known length 15.\n        static constexpr const char* panic_msg = \"plugin panicked\";\n        return AbiError{static_cast<uint32_t>(AbiErrorCode::Panic), StringView{reinterpret_cast<const uint8_t*>(panic_msg), 15}};\n    }\n}\n\n";

// ─── Guest ABI wrappers ─────────────────────────────────────────────────────

/// The lines inside a guest ABI wrapper's `try` that call the implementation.
pub open spec fn cpp_guest_call(lower: Seq<char>, func: ResolvedFunction) -> Seq<char> {
    let prefix = if is_void_ret(func.returns) {
        Seq::<char>::empty()
    } else {
        "auto result = "@
    };
    let call = prefix + "g_"@ + lower + "_impl->"@ + func.name@;
    if func.params@.len() == 0 {
        "        // SAFETY: args is null for this function per ABI contract; no dereference needed.\n(void)args;\n        "@ + call + "();\n"@
    } else if func.params@.len() == 1 {
        let t = cpp_type(func.params@[0].ty);
        "        // SAFETY: args is a valid const void* pointing to a "@ + t + " per ABI contract.\n// The host guarantees proper alignment and size before calling this wrapper.\n"@
            + call + "(*static_cast<const "@ + t + "*>(args));\n"@
    } else {
        let st = capitalize(func.name@) + "Args"@;
        "        // SAFETY: args is a valid const void* pointing to a packed struct layout per ABI contract.\n        // The host guarantees proper alignment and size matching the struct definition below.\n"@
            + "        struct "@ + st + " {"@ + struct_fields(func.params@) + " };\n"@ + "        const "@ + st
            + "* packed = static_cast<const "@ + st + "*>(args);\n"@ + "        "@ + call + "("@ + join_pieces(func.params@, 3)
            + ");\n"@
    }
}

/// Build the lines that call the implementation inside a guest ABI wrapper:
/// `auto result = ` for a returning function, the arguments read from `args`.
pub fn build_guest_call_expr(contract_lower: &str, func: &ResolvedFunction) -> (r: String)
    ensures
        r@ == cpp_guest_call(contract_lower@, *func),
{
    let mut code: String = String::new();
    let void_ret: bool = is_void_return(&func.returns);
    let n: usize = func.params.len();
    if n == 0 {
        code.append("        // SAFETY: args is null for this function per ABI contract; no dereference needed.\n(void)args;\n        ");
    } else if n == 1 {
        let t: String = cpp_type_name(&func.params[0].ty);
        code.append("        // SAFETY: args is a valid const void* pointing to a ");
        code.append(t.as_str());
        code.append(" per ABI contract.\n// The host guarantees proper alignment and size before calling this wrapper.\n");
    } else {
        let mut st: String = capitalise_first(func.name.as_str());
        st.append("Args");
        code.append("        // SAFETY: args is a valid const void* pointing to a packed struct layout per ABI contract.\n        // The host guarantees proper alignment and size matching the struct definition below.\n");
        code.append("        struct ");
        code.append(st.as_str());
        code.append(" {");
        push_struct_fields(&mut code, &func.params);
        code.append(" };\n");
        code.append("        const ");
        code.append(st.as_str());
        code.append("* packed = static_cast<const ");
        code.append(st.as_str());
        code.append("*>(args);\n");
        code.append("        ");
    }
    if !void_ret {
        code.append("auto result = ");
    }
    code.append("g_");
    code.append(contract_lower);
    code.append("_impl->");
    code.append(func.name.as_str());
    if n == 0 {
        code.append("();\n");
    } else if n == 1 {
        let t: String = cpp_type_name(&func.params[0].ty);
        code.append("(*static_cast<const ");
        code.append(t.as_str());
        code.append("*>(args));\n");
    } else {
        code.append("(");
        push_joined(&mut code, &func.params, 3);
        code.append(");\n");
    }
    code
}

/// The `extern "C"`-compatible wrapper of one guest contract function.
pub open spec fn cpp_abi_wrapper(acc: Seq<char>, lower: Seq<char>, func: ResolvedFunction) -> Seq<char> {
    let head = acc + "// ABI wrapper for "@ + func.name@ + " (function_id = "@ + dec_digits(func.function_id as nat) + ")\n"@
        + "inline AbiError "@ + lower + "_"@ + func.name@
        + "_abi(GuestContractInstance instance, const void* args, void* out) noexcept {\n"@ + CPP_ABI_WRAPPER_TRY@;
    let a = if func.params@.len() > 0 {
        head + CPP_ABI_ARGS_NULL@
    } else {
        head
    };
    let b = if !is_void_ret(func.returns) {
        a + CPP_ABI_OUT_NULL@
    } else {
        a
    };
    let c = b + cpp_guest_call(lower, func);
    let d = if is_void_ret(func.returns) {
        c + CPP_ABI_VOID_TAIL@
    } else {
        c + "        // SAFETY: out is a valid void* pointing to a "@ + cpp_ret(func.returns) + " per ABI contract.\n        // The host guarantees proper alignment and size before calling this wrapper.\n        *static_cast<"@ + cpp_ret(func.returns) + "*>(out) = result;\n"@
    };
    d + CPP_ABI_CATCH@
}

/// Emit the ABI wrapper of one guest contract function: argument and out
/// checks, the call, and exceptions turned into error codes.
pub fn generate_cpp_guest_abi_wrapper(out: &mut String, contract_lower: &str, func: &ResolvedFunction) -> (r: Result<(), crate::error::CodegenError>)
    ensures
        r is Ok,
        final(out)@ == cpp_abi_wrapper(old(out)@, contract_lower@, *func),
{
    let void_ret: bool = is_void_return(&func.returns);
    out.append("// ABI wrapper for ");
    out.append(func.name.as_str());
    out.append(" (function_id = ");
    push_u32(out, func.function_id);
    out.append(")\n");
    out.append("inline AbiError ");
    out.append(contract_lower);
    out.append("_");
    out.append(func.name.as_str());
    out.append("_abi(GuestContractInstance instance, const void* args, void* out) noexcept {\n");
    out.append(CPP_ABI_WRAPPER_TRY);
    if func.params.len() > 0 {
        out.append(CPP_ABI_ARGS_NULL);
    }
    if !void_ret {
        out.append(CPP_ABI_OUT_NULL);
    }
    let call_expr: String = build_guest_call_expr(contract_lower, func);
    out.append(call_expr.as_str());
    if void_ret {
        out.append(CPP_ABI_VOID_TAIL);
    } else {
        let ret: String = cpp_ret_name(&func.returns);
        out.append("        // SAFETY: out is a valid void* pointing to a ");
        out.append(ret.as_str());
        out.append(" per ABI contract.\n        // The host guarantees proper alignment and size before calling this wrapper.\n        *static_cast<");
        out.append(ret.as_str());
        out.append("*>(out) = result;\n");
    }
    out.append(CPP_ABI_CATCH);
    Ok(())
}

/// The ABI wrappers of `funcs`.
pub open spec fn cpp_abi_wrappers(acc: Seq<char>, lower: Seq<char>, funcs: Seq<ResolvedFunction>) -> Seq<char>
    decreases funcs.len(),
{
    if funcs.len() == 0 {
        acc
    } else {
        cpp_abi_wrapper(cpp_abi_wrappers(acc, lower, funcs.drop_last()), lower, funcs.last())
    }
}

/// `    reinterpret_cast<void*>(<lower>_<fn>_abi),` for every function.
pub open spec fn cpp_fn_table(acc: Seq<char>, lower: Seq<char>, funcs: Seq<ResolvedFunction>) -> Seq<char>
    decreases funcs.len(),
{
    if funcs.len() == 0 {
        acc
    } else {
        cpp_fn_table(acc, lower, funcs.drop_last()) + "    reinterpret_cast<void*>("@ + lower + "_"@ + funcs.last().name@ + "_abi),\n"@
    }
}

fn push_abi_wrappers_and_table(out: &mut String, lower: &str, upper: &str, funcs: &Vec<ResolvedFunction>)
    ensures
        final(out)@ == cpp_fn_table(
            cpp_abi_wrappers(old(out)@, lower@, funcs@) + "static void* const "@ + upper@ + "_FNS[] = {\n"@,
            lower@,
            funcs@,
        ) + "};\n\n"@,
{
    let n: usize = funcs.len();
    let mut i: usize = 0;
    while i < n
        invariant
            n == funcs@.len(),
            i <= n,
            out@ == cpp_abi_wrappers(old(out)@, lower@, funcs@.take(i as int)),
        decreases n - i,
    {
        let _ = generate_cpp_guest_abi_wrapper(out, lower, &funcs[i]);
        assert(funcs@.take(i + 1).drop_last() =~= funcs@.take(i as int));
        i = i + 1;
    }
    assert(funcs@.take(n as int) =~= funcs@);
    out.append("static void* const ");
    out.append(upper);
    out.append("_FNS[] = {\n");
    let ghost s0 = out@;
    let mut j: usize = 0;
    while j < n
        invariant
            n == funcs@.len(),
            j <= n,
            out@ == cpp_fn_table(s0, lower@, funcs@.take(j as int)),
        decreases n - j,
    {
        out.append("    reinterpret_cast<void*>(");
        out.append(lower);
        out.append("_");
        out.append(funcs[j].name.as_str());
        out.append("_abi),\n");
        assert(funcs@.take(j + 1).drop_last() =~= funcs@.take(j as int));
        j = j + 1;
    }
    assert(funcs@.take(n as int) =~= funcs@);
    out.append("};\n\n");
}

/// The instance stubs and the interface static of a guest contract.
pub open spec fn cpp_interface_tail(acc: Seq<char>, name: Seq<char>, upper: Seq<char>, contract: ResolvedContract, native: bool) -> Seq<char> {
    let dt = if native {
        "DispatchType::Native"@
    } else {
        "DispatchType::VirtualMachine"@
    };
    acc + "// Default create_instance stub for "@ + name + " - returns null instance.\nstatic GuestContractInstance "@
        + upper + "_create_instance_stub(const HostApi* host, const void* args) noexcept {\n    (void)host; (void)args;  // Unused in default stub.\n    return GuestContractInstance{nullptr, 0U};  // Null instance for stateless plugins.\n}\n\n// Default destroy_instance stub for "@ + name + " - no-op.\nstatic void "@
        + upper + "_destroy_instance_stub(const HostApi* host, GuestContractInstance instance) noexcept {\n    (void)host; (void)instance;  // Unused in default stub.\n    // No-op - stateless plugins don't need cleanup.\n}\n\nstatic GuestContractInterface "@ + upper + "_INTERFACE = {\n    "@
        + upper + "_CONTRACT_ID,\n    Version{ "@ + dec_digits((contract.version.major) as nat) + "U, "@
        + dec_digits((contract.version.minor) as nat) + "U, "@ + dec_digits((contract.version.patch) as nat) + "U },  // contract_version\n    "@
        + dt + ",\n    "@ + upper + "_create_instance_stub,\n    "@
        + upper + "_destroy_instance_stub,\n    DispatchMechanisms{ .native = NativeDispatch{ "@ + dec_digits((contract.functions@.len()) as nat) + "U, "@
        + upper + "_FNS } }\n};\n\n"@
}

fn push_interface_tail(out: &mut String, name: &str, upper: &str, contract: &ResolvedContract, native: bool)
    ensures
        final(out)@ == cpp_interface_tail(old(out)@, name@, upper@, *contract, native),
{
    let dt: &str = if native {
        "DispatchType::Native"
    } else {
        "DispatchType::VirtualMachine"
    };
    out.append("// Default create_instance stub for ");
    out.append(name);
    out.append(" - returns null instance.\nstatic GuestContractInstance ");
    out.append(upper);
    out.append("_create_instance_stub(const HostApi* host, const void* args) noexcept {\n    (void)host; (void)args;  // Unused in default stub.\n    return GuestContractInstance{nullptr, 0U};  // Null instance for stateless plugins.\n}\n\n// Default destroy_instance stub for ");
    out.append(name);
    out.append(" - no-op.\nstatic void ");
    out.append(upper);
    out.append("_destroy_instance_stub(const HostApi* host, GuestContractInstance instance) noexcept {\n    (void)host; (void)instance;  // Unused in default stub.\n    // No-op - stateless plugins don't need cleanup.\n}\n\nstatic GuestContractInterface ");
    out.append(upper);
    out.append("_INTERFACE = {\n    ");
    out.append(upper);
    out.append("_CONTRACT_ID,\n    Version{ ");
    push_u32(out, contract.version.major);
    out.append("U, ");
    push_u32(out, contract.version.minor);
    out.append("U, ");
    push_u32(out, contract.version.patch);
    out.append("U },  // contract_version\n    ");
    out.append(dt);
    out.append(",\n    ");
    out.append(upper);
    out.append("_create_instance_stub,\n    ");
    out.append(upper);
    out.append("_destroy_instance_stub,\n    DispatchMechanisms{ .native = NativeDispatch{ ");
    push_usize(out, contract.functions.len());
    out.append("U, ");
    out.append(upper);
    out.append("_FNS } }\n};\n\n");
}

/// The interface of plugin `plugin` implementing `contract`.
pub open spec fn cpp_plugin_interface(acc: Seq<char>, plugin: Seq<char>, contract: ResolvedContract, native: bool) -> Seq<char> {
    let upper = plugin_upper(plugin);
    let lower = plugin_lower(plugin);
    let c = cpp_guest_class(contract.name@);
    cpp_interface_tail(
        cpp_fn_table(
            cpp_abi_wrappers(
                acc + "// Plugin: "@ + plugin + "\n"@ + "extern "@ + c + "* g_"@ + lower + "_impl;\n\n"@ + "constexpr uint64_t "@
                    + upper + "_CONTRACT_ID = 0x"@ + hex_digits(contract.contract_id as nat, 16) + "ULL;\n\n"@
                    + "inline void set_"@ + lower + "_impl("@ + c + "* impl) { g_"@ + lower + "_impl = impl; }\n\n"@
                    + "// Forward declaration - user must implement this\n"@ + c + "* create_"@ + lower + "_impl();\n\n"@,
                lower,
                contract.functions@,
            ) + "static void* const "@ + upper + "_FNS[] = {\n"@,
            lower,
            contract.functions@,
        ) + "};\n\n"@,
        plugin,
        upper,
        contract,
        native,
    )
}

/// Emit the guest-side interface of plugin `plugin_name` implementing
/// `contract`: the implementation pointer, the ABI wrappers, the function
/// table, the instance stubs and the interface static.
pub fn generate_cpp_guest_plugin_interface(out: &mut String, plugin_name: &str, contract: &ResolvedContract, is_native: bool) -> (r: Result<(), crate::error::CodegenError>)
    ensures
        r is Ok,
        final(out)@ == cpp_plugin_interface(old(out)@, plugin_name@, *contract, is_native),
{
    let upper: String = plugin_upper_of(plugin_name);
    let lower: String = plugin_lower_of(plugin_name);
    let c: String = contract_name_to_guest_contract_class(contract.name.as_str());
    out.append("// Plugin: ");
    out.append(plugin_name);
    out.append("\n");
    out.append("extern ");
    out.append(c.as_str());
    out.append("* g_");
    out.append(lower.as_str());
    out.append("_impl;\n\n");
    out.append("constexpr uint64_t ");
    out.append(upper.as_str());
    out.append("_CONTRACT_ID = 0x");
    push_hex16(out, contract.contract_id);
    out.append("ULL;\n\n");
    out.append("inline void set_");
    out.append(lower.as_str());
    out.append("_impl(");
    out.append(c.as_str());
    out.append("* impl) { g_");
    out.append(lower.as_str());
    out.append("_impl = impl; }\n\n");
    out.append("// Forward declaration - user must implement this\n");
    out.append(c.as_str());
    out.append("* create_");
    out.append(lower.as_str());
    out.append("_impl();\n\n");
    push_abi_wrappers_and_table(out, lower.as_str(), upper.as_str(), &contract.functions);
    push_interface_tail(out, plugin_name, upper.as_str(), contract, is_native);
    Ok(())
}

/// The interface of a guest contract when no bundle names its plugins.
pub open spec fn cpp_contract_interface(acc: Seq<char>, contract: ResolvedContract, native: bool) -> Seq<char> {
    let upper = upper_snake(contract.name@);
    let lower = lower_snake(contract.name@);
    let c = cpp_guest_class(contract.name@);
    cpp_interface_tail(
        cpp_fn_table(
            cpp_abi_wrappers(
                acc + "// Forward declaration -- set by polyplug_init\n"@ + "extern "@ + c + "* g_"@ + lower + "_impl;\n\n"@
                    + "constexpr uint64_t "@ + upper + "_CONTRACT_ID = 0x"@ + hex_digits(contract.contract_id as nat, 16)
                    + "ULL;\n\n"@,
                lower,
                contract.functions@,
            ) + "static void* const "@ + upper + "_FNS[] = {\n"@,
            lower,
            contract.functions@,
        ) + "};\n\n"@,
        contract.name@,
        upper,
        contract,
        native,
    )
}

/// Emit the guest-side interface of a guest contract named after the contract.
pub fn generate_cpp_guest_contract_interface(out: &mut String, contract: &ResolvedContract, is_native: bool) -> (r: Result<(), crate::error::CodegenError>)
    ensures
        r is Ok,
        final(out)@ == cpp_contract_interface(old(out)@, *contract, is_native),
{
    let lower: String = contract_name_to_lower_snake(contract.name.as_str());
    let upper: String = contract_name_to_upper_snake(contract.name.as_str());
    let c: String = contract_name_to_guest_contract_class(contract.name.as_str());
    out.append("// Forward declaration -- set by polyplug_init\n");
    out.append("extern ");
    out.append(c.as_str());
    out.append("* g_");
    out.append(lower.as_str());
    out.append("_impl;\n\n");
    out.append("constexpr uint64_t ");
    out.append(upper.as_str());
    out.append("_CONTRACT_ID = 0x");
    push_hex16(out, contract.contract_id);
    out.append("ULL;\n\n");
    push_abi_wrappers_and_table(out, lower.as_str(), upper.as_str(), &contract.functions);
    push_interface_tail(out, contract.name.as_str(), upper.as_str(), contract, is_native);
    Ok(())
}

/// The interfaces of one plugin, one per `implements` entry naming a contract.
pub open spec fn cpp_plugin_impls(acc: Seq<char>, plugin: Seq<char>, impls: Seq<String>, contracts: Seq<ResolvedContract>, native: bool) -> Seq<char>
    decreases impls.len(),
{
    if impls.len() == 0 {
        acc
    } else {
        let prev = cpp_plugin_impls(acc, plugin, impls.drop_last(), contracts, native);
        match find_impl(contracts, impls.last()@) {
            Some(c) => cpp_plugin_interface(prev, plugin, c, native),
            None => prev,
        }
    }
}

/// The interfaces of every plugin.
pub open spec fn cpp_plugins_impls(acc: Seq<char>, plugins: Seq<crate::ir::ResolvedPlugin>, contracts: Seq<ResolvedContract>, native: bool) -> Seq<char>
    decreases plugins.len(),
{
    if plugins.len() == 0 {
        acc
    } else {
        let p = plugins.last();
        cpp_plugin_impls(cpp_plugins_impls(acc, plugins.drop_last(), contracts, native), p.name@, p.implements@, contracts, native)
    }
}

/// The interfaces of every guest contract, natively dispatched.
pub open spec fn cpp_contract_interfaces(acc: Seq<char>, contracts: Seq<ResolvedContract>) -> Seq<char>
    decreases contracts.len(),
{
    if contracts.len() == 0 {
        acc
    } else {
        cpp_contract_interface(cpp_contract_interfaces(acc, contracts.drop_last()), contracts.last(), true)
    }
}

/// The first lines of `guest/interfaces.hpp`.
pub const CPP_INTERFACES_HEAD: &'static str = "#include \"contracts.hpp\"\n#include \"polyplug/abi.hpp\"\n#include <cstdint>\n#include <cstring>\n#include <exception>\n\n";

/// `guest/interfaces.hpp`: the interface of every plugin of the bundle, or
/// without a bundle of every guest contract.
pub open spec fn cpp_interfaces_hpp(ir: ValidatedIr) -> Seq<char> {
    let head = CPP_API_HEADER@ + CPP_INTERFACES_HEAD@ + CPP_PLUGIN_NS@;
    let body = match ir.bundle {
        Some(b) => cpp_plugins_impls(head, b.plugins@, ir.contracts@, lower_str(b.runtime@) == "native"@),
        None => cpp_contract_interfaces(head, ir.contracts@),
    };
    body + "}  // namespace polyplug_plugin\n"@
}

/// Generate `guest/interfaces.hpp`.
pub fn generate_interfaces_hpp(ir: &ValidatedIr) -> (r: Result<String, crate::error::CodegenError>)
    ensures
        r matches Ok(s) && s@ == cpp_interfaces_hpp(*ir),
{
    let mut out: String = String::new();
    out.append(CPP_API_HEADER);
    out.append(CPP_INTERFACES_HEAD);
    out.append(CPP_PLUGIN_NS);
    match &ir.bundle {
        Some(b) => {
            let native: bool = is_native_runtime(b.runtime.as_str());
            let ghost start = out@;
            let np: usize = b.plugins.len();
            let mut i: usize = 0;
            while i < np
                invariant
                    np == b.plugins@.len(),
                    i <= np,
                    out@ == cpp_plugins_impls(start, b.plugins@.take(i as int), ir.contracts@, native),
                decreases np - i,
            {
                let p: &crate::ir::ResolvedPlugin = &b.plugins[i];
                let ghost s1 = out@;
                let ni: usize = p.implements.len();
                let mut j: usize = 0;
                while j < ni
                    invariant
                        ni == p.implements@.len(),
                        j <= ni,
                        out@ == cpp_plugin_impls(s1, p.name@, p.implements@.take(j as int), ir.contracts@, native),
                    decreases ni - j,
                {
                    match crate::generators::lua::find_impl_contract(&ir.contracts, p.implements[j].as_str()) {
                        Some(c) => {
                            let _ = generate_cpp_guest_plugin_interface(&mut out, p.name.as_str(), c, native);
                        },
                        None => {},
                    }
                    assert(p.implements@.take(j + 1).drop_last() =~= p.implements@.take(j as int));
                    j = j + 1;
                }
                assert(p.implements@.take(ni as int) =~= p.implements@);
                assert(b.plugins@.take(i + 1).drop_last() =~= b.plugins@.take(i as int));
                i = i + 1;
            }
            assert(b.plugins@.take(np as int) =~= b.plugins@);
        },
        None => {
            let ghost start = out@;
            let n: usize = ir.contracts.len();
            let mut i: usize = 0;
            while i < n
                invariant
                    n == ir.contracts@.len(),
                    i <= n,
                    out@ == cpp_contract_interfaces(start, ir.contracts@.take(i as int)),
                decreases n - i,
            {
                let _ = generate_cpp_guest_contract_interface(&mut out, &ir.contracts[i], true);
                assert(ir.contracts@.take(i + 1).drop_last() =~= ir.contracts@.take(i as int));
                i = i + 1;
            }
            assert(ir.contracts@.take(n as int) =~= ir.contracts@);
        },
    }
    out.append("}  // namespace polyplug_plugin\n");
    Ok(out)
}


// ─── init.hpp ───────────────────────────────────────────────────────────────

/// The number of bytes of the UTF-8 encoding of `s`.
pub open spec fn utf8_len(s: Seq<char>) -> nat {
    (vstd::utf8::encode_utf8(s).len() as usize) as nat
}

fn byte_len(s: &str) -> (r: usize)
    ensures
        r as nat == utf8_len(s@),
{
    s.len()
}

fn char_pos(v: &Vec<char>, c: char) -> (r: usize)
    ensures
        r == find_char(v@, c),
        r <= v@.len(),
{
    assert(v@.skip(0) =~= v@);
    proof {
        crate::generators::manifest::lemma_find_char(v@, c);
    }
    crate::generators::manifest::find_char_pos(v, 0, c)
}

/// An `implements` entry `name@major.minor[.patch]` split into the contract
/// name, the major and the minor version text (`1.0.0` when there is no `@`,
/// minor `0` when there is no `.`).
pub open spec fn impl_parts(s: Seq<char>) -> (Seq<char>, Seq<char>, Seq<char>) {
    let a = find_char(s, '@');
    let name = if a == s.len() {
        s
    } else {
        s.take(a)
    };
    let vstr = if a == s.len() {
        "1.0.0"@
    } else {
        s.skip(a + 1)
    };
    let d = find_char(vstr, '.');
    let major = if d == vstr.len() {
        vstr
    } else {
        vstr.take(d)
    };
    let rest = if d == vstr.len() {
        "0"@
    } else {
        vstr.skip(d + 1)
    };
    (name, major, rest.take(find_char(rest, '.')))
}

fn split_impl(s: &str) -> (r: (Vec<char>, Vec<char>, Vec<char>))
    ensures
        (r.0@, r.1@, r.2@) == impl_parts(s@),
{
    let v: Vec<char> = chars_of(s);
    let a: usize = char_pos(&v, '@');
    let name: Vec<char>;
    let vstr: Vec<char>;
    if a == v.len() {
        name = v.clone();
        vstr = chars_of("1.0.0");
        assert(v@ =~= s@);
    } else {
        name = crate::text::slice_chars(&v, 0, a);
        vstr = crate::text::slice_chars(&v, a + 1, v.len());
        assert(name@ =~= s@.take(a as int));
        assert(vstr@ =~= s@.skip(a + 1));
    }
    let d: usize = char_pos(&vstr, '.');
    let major: Vec<char>;
    let rest: Vec<char>;
    if d == vstr.len() {
        major = vstr.clone();
        rest = chars_of("0");
    } else {
        major = crate::text::slice_chars(&vstr, 0, d);
        rest = crate::text::slice_chars(&vstr, d + 1, vstr.len());
        assert(major@ =~= vstr@.take(d as int));
        assert(rest@ =~= vstr@.skip(d + 1));
    }
    let e: usize = char_pos(&rest, '.');
    let minor: Vec<char> = crate::text::slice_chars(&rest, 0, e);
    assert(minor@ =~= rest@.take(e as int));
    (name, major, minor)
}

/// Registers a descriptor `desc_<UPPER>` with the interface `<UPPER>_INTERFACE`.
pub open spec fn cpp_register_call(upper: Seq<char>) -> Seq<char> {
    "    AbiError err_"@ + upper + " = host->register_guest_contract(host, &desc_"@ + upper + ", &polyplug_plugin::"@ + upper
        + "_INTERFACE);\n"@ + "    if (err_"@ + upper + ".code != static_cast<uint32_t>(AbiErrorCode::Ok)) return err_"@ + upper
        + ";\n\n"@
}

fn push_register_call(out: &mut String, upper: &str)
    ensures
        final(out)@ == old(out)@ + cpp_register_call(upper@),
{
    out.append("    AbiError err_");
    out.append(upper);
    out.append(" = host->register_guest_contract(host, &desc_");
    out.append(upper);
    out.append(", &polyplug_plugin::");
    out.append(upper);
    out.append("_INTERFACE);\n");
    out.append("    if (err_");
    out.append(upper);
    out.append(".code != static_cast<uint32_t>(AbiErrorCode::Ok)) return err_");
    out.append(upper);
    out.append(";\n\n");
}

/// A `{ (const uint8_t*)"<s>", <bytes>U },  // <what> (StringView)` descriptor line.
pub open spec fn cpp_sv_line(s: Seq<char>, what: Seq<char>) -> Seq<char> {
    "        { (const uint8_t*)\""@ + s + "\", "@ + dec_digits(utf8_len(s)) + "U },  // "@ + what + " (StringView)\n"@
}

fn push_sv_line(out: &mut String, s: &str, what: &str)
    ensures
        final(out)@ == old(out)@ + cpp_sv_line(s@, what@),
{
    out.append("        { (const uint8_t*)\"");
    out.append(s);
    out.append("\", ");
    let n: usize = byte_len(s);
    push_usize(out, n);
    out.append("U },  // ");
    out.append(what);
    out.append(" (StringView)\n");
}

/// The registration of a guest contract with no bundle naming its plugin.
pub open spec fn cpp_register_contract(acc: Seq<char>, contract: ResolvedContract) -> Seq<char> {
    let lower = lower_snake(contract.name@);
    let upper = upper_snake(contract.name@);
    acc + "    // Register contract: "@ + contract.name@ + "\n"@ + "    polyplug_plugin::g_"@ + lower
        + "_impl = polyplug_plugin::create_"@ + lower + "_impl();\n"@ + "    PluginDescriptor desc_"@ + upper + " = {\n"@
        + cpp_sv_line(contract.name@, "name"@) + cpp_sv_line(impl_key(contract), "contract_name"@) + "        { "@
        + dec_digits(contract.version.major as nat) + "U, "@ + dec_digits(contract.version.minor as nat) + "U, "@
        + dec_digits(contract.version.patch as nat) + "U }  // version (Version)\n"@ + "    };\n"@ + cpp_register_call(upper)
}

/// Emit the registration of a guest contract in `polyplug_init`.
pub fn generate_init_hpp_register_guest_contract(out: &mut String, contract: &ResolvedContract) -> (r: Result<(), crate::error::CodegenError>)
    ensures
        r is Ok,
        final(out)@ == cpp_register_contract(old(out)@, *contract),
{
    let lower: String = contract_name_to_lower_snake(contract.name.as_str());
    let upper: String = contract_name_to_upper_snake(contract.name.as_str());
    out.append("    // Register contract: ");
    out.append(contract.name.as_str());
    out.append("\n");
    out.append("    polyplug_plugin::g_");
    out.append(lower.as_str());
    out.append("_impl = polyplug_plugin::create_");
    out.append(lower.as_str());
    out.append("_impl();\n");
    out.append("    PluginDescriptor desc_");
    out.append(upper.as_str());
    out.append(" = {\n");
    push_sv_line(out, contract.name.as_str(), "name");
    let mut full: String = String::new();
    full.append(contract.name.as_str());
    full.append("@");
    push_u32(&mut full, contract.version.major);
    full.append(".");
    push_u32(&mut full, contract.version.minor);
    push_sv_line(out, full.as_str(), "contract_name");
    out.append("        { ");
    push_u32(out, contract.version.major);
    out.append("U, ");
    push_u32(out, contract.version.minor);
    out.append("U, ");
    push_u32(out, contract.version.patch);
    out.append("U }  // version (Version)\n");
    out.append("    };\n");
    push_register_call(out, upper.as_str());
    Ok(())
}

/// The registration of one plugin of the bundle, under its first contract.
pub open spec fn cpp_register_plugin(acc: Seq<char>, p: crate::ir::ResolvedPlugin) -> Seq<char> {
    let upper = plugin_upper(p.name@);
    let lower = plugin_lower(p.name@);
    let first = if p.implements@.len() > 0 {
        p.implements@[0]@
    } else {
        Seq::<char>::empty()
    };
    let parts = impl_parts(first);
    let full = parts.0 + "@"@ + parts.1;
    acc + "    // Register plugin: "@ + p.name@ + "\n"@ + "    polyplug_plugin::set_"@ + lower
        + "_impl(polyplug_plugin::create_"@ + lower + "_impl());\n"@ + "    PluginDescriptor desc_"@ + upper + " = {\n"@
        + cpp_sv_line(p.name@, "name"@) + cpp_sv_line(full, "contract_name"@) + "        { "@ + parts.1 + "U, "@ + parts.2
        + "U, 0U }  // version (Version)\n"@ + "    };\n"@ + cpp_register_call(upper)
}

fn push_register_plugin(out: &mut String, p: &crate::ir::ResolvedPlugin)
    ensures
        final(out)@ == cpp_register_plugin(old(out)@, *p),
{
    let upper: String = plugin_upper_of(p.name.as_str());
    let lower: String = plugin_lower_of(p.name.as_str());
    let first: &str = if p.implements.len() > 0 {
        p.implements[0].as_str()
    } else {
        ""
    };
    proof {
        if p.implements@.len() == 0 {
            reveal_strlit("");
            assert(first@ =~= Seq::<char>::empty());
        }
    }
    let (name, major, minor) = split_impl(first);
    let mut full: String = String::new();
    crate::text::push_chars(&mut full, &name);
    full.append("@");
    crate::text::push_chars(&mut full, &major);
    out.append("    // Register plugin: ");
    out.append(p.name.as_str());
    out.append("\n");
    out.append("    polyplug_plugin::set_");
    out.append(lower.as_str());
    out.append("_impl(polyplug_plugin::create_");
    out.append(lower.as_str());
    out.append("_impl());\n");
    out.append("    PluginDescriptor desc_");
    out.append(upper.as_str());
    out.append(" = {\n");
    push_sv_line(out, p.name.as_str(), "name");
    push_sv_line(out, full.as_str(), "contract_name");
    out.append("        { ");
    crate::text::push_chars(out, &major);
    out.append("U, ");
    crate::text::push_chars(out, &minor);
    out.append("U, 0U }  // version (Version)\n");
    out.append("    };\n");
    push_register_call(out, upper.as_str());
}

/// The class of a plugin's implementation pointer: that of the contract its
/// first `implements` entry names, else `IPlugin`.
pub open spec fn cpp_plugin_class(p: crate::ir::ResolvedPlugin, contracts: Seq<ResolvedContract>) -> Seq<char> {
    if p.implements@.len() > 0 {
        match find_impl(contracts, p.implements@[0]@) {
            Some(c) => cpp_guest_class(c.name@),
            None => "IPlugin"@,
        }
    } else {
        "IPlugin"@
    }
}

/// `<Class>* g_<plugin>_impl = nullptr;` for every plugin.
pub open spec fn cpp_plugin_globals(acc: Seq<char>, plugins: Seq<crate::ir::ResolvedPlugin>, contracts: Seq<ResolvedContract>) -> Seq<char>
    decreases plugins.len(),
{
    if plugins.len() == 0 {
        acc
    } else {
        let p = plugins.last();
        cpp_plugin_globals(acc, plugins.drop_last(), contracts) + cpp_plugin_class(p, contracts) + "* g_"@ + plugin_lower(p.name@)
            + "_impl = nullptr;\n"@
    }
}

/// `<Class>* g_<contract>_impl = nullptr;` for every guest contract.
pub open spec fn cpp_contract_globals(acc: Seq<char>, contracts: Seq<ResolvedContract>) -> Seq<char>
    decreases contracts.len(),
{
    if contracts.len() == 0 {
        acc
    } else {
        let c = contracts.last();
        cpp_contract_globals(acc, contracts.drop_last()) + cpp_guest_class(c.name@) + "* g_"@ + lower_snake(c.name@)
            + "_impl = nullptr;\n"@
    }
}

/// The registrations of every plugin.
pub open spec fn cpp_register_plugins(acc: Seq<char>, plugins: Seq<crate::ir::ResolvedPlugin>) -> Seq<char>
    decreases plugins.len(),
{
    if plugins.len() == 0 {
        acc
    } else {
        cpp_register_plugin(cpp_register_plugins(acc, plugins.drop_last()), plugins.last())
    }
}

/// The registrations of every guest contract.
pub open spec fn cpp_register_contracts(acc: Seq<char>, contracts: Seq<ResolvedContract>) -> Seq<char>
    decreases contracts.len(),
{
    if contracts.len() == 0 {
        acc
    } else {
        cpp_register_contract(cpp_register_contracts(acc, contracts.drop_last()), contracts.last())
    }
}

/// `polyplug_abi_version` and the start of `polyplug_init`.
pub const CPP_INIT_START: &'static str = "\n}  // namespace polyplug_plugin\n\nextern \"C\" uint32_t polyplug_abi_version() { return 1U; }\n\nextern \"C\" AbiError polyplug_init(const HostApi* host, const BundleInitContext* ctx) {\n    if (!host || !ctx) {\n        static constexpr const char* err_msg = \"null parameter in polyplug_init\";\n        return AbiError{static_cast<uint32_t>(AbiErrorCode::Generic), StringView{reinterpret_cast<const uint8_t*>(err_msg), 32}};\n    }\n\n    // Store host interface for later access via polyplug::get_host_interface()\n    polyplug::store_host_interface(host);\n\n";

/// The successful end of `polyplug_init`.
pub const CPP_INIT_END: &'static str = "    return AbiError{static_cast<uint32_t>(AbiErrorCode::Ok), StringView{nullptr, 0}};\n}\n\n";

/// The first lines of `guest/init.hpp`.
pub const CPP_INIT_HEAD: &'static str = "#include \"interfaces.hpp\"\n#include \"polyplug/abi.hpp\"\n#include \"polyplug/guest.hpp\"\n\n";

/// `guest/init.hpp`: the implementation pointers, `polyplug_abi_version` and
/// `polyplug_init` registering every plugin (or every contract without a bundle).
pub open spec fn cpp_init_hpp(ir: ValidatedIr) -> Seq<char> {
    let head = CPP_API_HEADER@ + CPP_INIT_HEAD@ + CPP_PLUGIN_NS@;
    match ir.bundle {
        Some(b) => cpp_register_plugins(cpp_plugin_globals(head, b.plugins@, ir.contracts@) + CPP_INIT_START@, b.plugins@)
            + CPP_INIT_END@,
        None => cpp_register_contracts(cpp_contract_globals(head, ir.contracts@) + CPP_INIT_START@, ir.contracts@)
            + CPP_INIT_END@,
    }
}

/// Generate `guest/init.hpp`.
pub fn generate_init_hpp(ir: &ValidatedIr) -> (r: Result<String, crate::error::CodegenError>)
    ensures
        r matches Ok(s) && s@ == cpp_init_hpp(*ir),
{
    let mut out: String = String::new();
    out.append(CPP_API_HEADER);
    out.append(CPP_INIT_HEAD);
    out.append(CPP_PLUGIN_NS);
    match &ir.bundle {
        Some(b) => {
            let ghost s0 = out@;
            let np: usize = b.plugins.len();
            let mut i: usize = 0;
            while i < np
                invariant
                    np == b.plugins@.len(),
                    i <= np,
                    out@ == cpp_plugin_globals(s0, b.plugins@.take(i as int), ir.contracts@),
                decreases np - i,
            {
                let p: &crate::ir::ResolvedPlugin = &b.plugins[i];
                let lower: String = plugin_lower_of(p.name.as_str());
                if p.implements.len() > 0 {
                    match crate::generators::lua::find_impl_contract(&ir.contracts, p.implements[0].as_str()) {
                        Some(c) => {
                            let cls: String = contract_name_to_guest_contract_class(c.name.as_str());
                            out.append(cls.as_str());
                        },
                        None => {
                            out.append("IPlugin");
                        },
                    }
                } else {
                    out.append("IPlugin");
                }
                out.append("* g_");
                out.append(lower.as_str());
                out.append("_impl = nullptr;\n");
                assert(b.plugins@.take(i + 1).drop_last() =~= b.plugins@.take(i as int));
                i = i + 1;
            }
            assert(b.plugins@.take(np as int) =~= b.plugins@);
            out.append(CPP_INIT_START);
            let ghost s1 = out@;
            let mut j: usize = 0;
            while j < np
                invariant
                    np == b.plugins@.len(),
                    j <= np,
                    out@ == cpp_register_plugins(s1, b.plugins@.take(j as int)),
                decreases np - j,
            {
                push_register_plugin(&mut out, &b.plugins[j]);
                assert(b.plugins@.take(j + 1).drop_last() =~= b.plugins@.take(j as int));
                j = j + 1;
            }
            assert(b.plugins@.take(np as int) =~= b.plugins@);
        },
        None => {
            let ghost s0 = out@;
            let n: usize = ir.contracts.len();
            let mut i: usize = 0;
            while i < n
                invariant
                    n == ir.contracts@.len(),
                    i <= n,
                    out@ == cpp_contract_globals(s0, ir.contracts@.take(i as int)),
                decreases n - i,
            {
                let c: &ResolvedContract = &ir.contracts[i];
                let lower: String = contract_name_to_lower_snake(c.name.as_str());
                let cls: String = contract_name_to_guest_contract_class(c.name.as_str());
                out.append(cls.as_str());
                out.append("* g_");
                out.append(lower.as_str());
                out.append("_impl = nullptr;\n");
                assert(ir.contracts@.take(i + 1).drop_last() =~= ir.contracts@.take(i as int));
                i = i + 1;
            }
            assert(ir.contracts@.take(n as int) =~= ir.contracts@);
            out.append(CPP_INIT_START);
            let ghost s1 = out@;
            let mut j: usize = 0;
            while j < n
                invariant
                    n == ir.contracts@.len(),
                    j <= n,
                    out@ == cpp_register_contracts(s1, ir.contracts@.take(j as int)),
                decreases n - j,
            {
                let _ = generate_init_hpp_register_guest_contract(&mut out, &ir.contracts[j]);
                assert(ir.contracts@.take(j + 1).drop_last() =~= ir.contracts@.take(j as int));
                j = j + 1;
            }
            assert(ir.contracts@.take(n as int) =~= ir.contracts@);
        },
    }
    out.append(CPP_INIT_END);
    Ok(out)
}

/// The inline call-arena helpers: bump allocation, overflow blocks, reset and teardown.
pub const CPP_CALL_ARENA_HELPERS: &'static str = "/// Size of each caller's inline call-arena buffer.\n///\n/// Variable-size VM return values (strings, buffers) are bump-allocated from\n/// this buffer; outputs larger than it spill into host-allocated overflow\n/// blocks that are retained across resets and freed only at teardown.\nstatic constexpr size_t CALL_ARENA_BUF_LEN = 512;\n\n/// Minimum size of a host-allocated overflow block, including its header.\nstatic constexpr size_t POLYPLUG_OVERFLOW_BLOCK_MIN = 4096;\n/// Alignment used for host-allocated overflow blocks.\nstatic constexpr size_t POLYPLUG_OVERFLOW_BLOCK_ALIGN = alignof(ArenaOverflowBlock);\n\n/// Bump-allocate `size` bytes aligned to `align` within `[from, end)`.\n/// Returns nullptr if the request does not fit.\ninline uint8_t* polyplug_arena_bump(uint8_t* from, uint8_t* end, size_t size, size_t align) noexcept {\n    auto addr = reinterpret_cast<size_t>(from);\n    size_t aligned = (addr + (align - 1)) & ~(align - 1);\n    if (aligned < addr) { return nullptr; }  // overflow on alignment\n    size_t new_cur = aligned + size;\n    if (new_cur < aligned) { return nullptr; }  // overflow on size\n    if (new_cur <= reinterpret_cast<size_t>(end)) {\n        return reinterpret_cast<uint8_t*>(aligned);\n    }\n    return nullptr;\n}\n\n/// Try to bump-allocate `size`@`align` from `block`'s free region.\n///\n/// Advances `block->used` on success and returns the allocation pointer.\n/// Returns nullptr if the request does not fit in the block's remaining room.\ninline uint8_t* polyplug_arena_serve_from_block(ArenaOverflowBlock* block, size_t size, size_t align) noexcept {\n    // SAFETY: block is a valid overflow block previously allocated by polyplug_arena_alloc;\n    // reading used/capacity and deriving pointers from the block base stays within\n    // the capacity-byte allocation.\n    auto block_bytes = reinterpret_cast<uint8_t*>(block);\n    uint8_t* from = block_bytes + block->used;\n    uint8_t* end  = block_bytes + block->capacity;\n    uint8_t* p = polyplug_arena_bump(from, end, size, align);\n    if (p == nullptr) { return nullptr; }\n    // SAFETY: block is a valid chain node; writing used (a plain size_t field)\n    // is in-bounds because the block was allocated with at least sizeof(ArenaOverflowBlock) bytes.\n    block->used = static_cast<size_t>(p - block_bytes) + size;\n    return p;\n}\n\n/// Allocate `size` bytes aligned to `align` from `arena`.\n///\n/// Serves from the primary region by bumping `cur`; on exhaustion, walks the\n/// retained overflow chain for a block with spare room; if none fits, requests a\n/// fresh overflow block from the host and serves from it. Returns nullptr if\n/// `size == 0`, if `align` is not a power of two, or if a host allocation fails.\n/// The returned pointer is valid until the next polyplug_arena_reset().\ninline uint8_t* polyplug_arena_alloc(CallArena* arena, size_t size, size_t align) noexcept {\n    if (size == 0 || align == 0 || (align & (align - 1)) != 0) {\n        return nullptr;\n    }\n    if (uint8_t* p = polyplug_arena_bump(arena->cur, arena->end, size, align)) {\n        arena->cur = p + size;\n        return p;\n    }\n    if (arena->host == nullptr) { return nullptr; }\n    // REUSE PASS: walk the retained chain; serve from the first block with room.\n    for (ArenaOverflowBlock* b = arena->first_overflow; b != nullptr; b = b->next) {\n        if (uint8_t* p = polyplug_arena_serve_from_block(b, size, align)) { return p; }\n    }\n    // ALLOCATE NEW: no retained block had enough room.\n    size_t header = sizeof(ArenaOverflowBlock);\n    size_t needed = header + align + size;\n    size_t capacity = needed > POLYPLUG_OVERFLOW_BLOCK_MIN ? needed : POLYPLUG_OVERFLOW_BLOCK_MIN;\n    // SAFETY: arena->host is non-null (checked above) and valid for the arena's\n    // lifetime. The allocator returns a block of `capacity` bytes or nullptr.\n    auto block_ptr = static_cast<uint8_t*>(arena->host->alloc(arena->host, capacity, POLYPLUG_OVERFLOW_BLOCK_ALIGN));\n    if (block_ptr == nullptr) { return nullptr; }\n    // SAFETY: block_ptr is aligned for ArenaOverflowBlock and owns at least\n    // `capacity >= header` bytes, so writing the header is sound.\n    auto block = reinterpret_cast<ArenaOverflowBlock*>(block_ptr);\n    block->next = arena->first_overflow;\n    block->capacity = capacity;\n    block->used = header;\n    arena->first_overflow = block;\n    return polyplug_arena_serve_from_block(block, size, align);\n}\n\n/// Rewind `arena` for reuse: the primary region and every retained overflow block\n/// become available again. Overflow blocks are NOT freed — they are retained for\n/// reuse across calls; call polyplug_arena_free_all() at teardown to free them.\n/// After reset, all pointers previously returned by polyplug_arena_alloc are invalid.\ninline void polyplug_arena_reset(CallArena* arena) noexcept {\n    arena->cur = arena->base;\n    ArenaOverflowBlock* block = arena->first_overflow;\n    while (block != nullptr) {\n        // SAFETY: every block in the chain was allocated by polyplug_arena_alloc\n        // with a valid header; reading next and writing used are in-bounds.\n        block->used = sizeof(ArenaOverflowBlock);\n        block = block->next;\n    }\n}\n\n/// Free all retained overflow blocks and reset the overflow chain to empty.\n/// Call this at teardown (destructor) to release all host-allocated memory.\ninline void polyplug_arena_free_all(CallArena* arena) noexcept {\n    ArenaOverflowBlock* block = arena->first_overflow;\n    while (block != nullptr) {\n        // SAFETY: every block was allocated by polyplug_arena_alloc with a valid\n        // header; reading next/capacity before freeing is sound.\n        ArenaOverflowBlock* next = block->next;\n        size_t capacity = block->capacity;\n        if (arena->host != nullptr) {\n            // SAFETY: block was allocated by host->alloc with these exact args.\n            arena->host->free(arena->host, reinterpret_cast<uint8_t*>(block), capacity, POLYPLUG_OVERFLOW_BLOCK_ALIGN);\n        }\n        block = next;\n    }\n    arena->first_overflow = nullptr;\n}\n\n/// Construct a CallArena over `buf` (primary region) with `host` for overflow.\ninline CallArena polyplug_arena_new(uint8_t* buf, size_t len, const HostApi* host) noexcept {\n    CallArena arena{};\n    arena.cur = buf;\n    arena.end = buf + len;\n    arena.base = buf;\n    arena.host = host;\n    arena.first_overflow = nullptr;\n    return arena;\n}\n\n";

/// The includes and namespace opening of `host/host_callers.hpp`.
pub const CPP_HOST_CALLERS_HEAD: &'static str = "#include \"types.hpp\"\n#include \"polyplug/error.hpp\"\n#include \"polyplug/abi.hpp\"\n#include \"polyplug/runtime.hpp\"\n#include <array>\n#include <cstddef>\n#include <memory>\n#include <optional>\n\nnamespace polyplug_generated {\n\n";

/// The manifest of a C++ API generation without a bundle.
pub const CPP_MANIFEST: &'static str = "# THIS FILE IS AUTO-GENERATED BY polyplugc. DO NOT EDIT.\n[manifest]\nschema_version = 1\nlang = \"cpp\"\ngenerated_by = \"polyplugc\"\n";

// ─── host_callers.hpp ───────────────────────────────────────────────────────

/// Whether a function returns a variable-size value the guest writes into the
/// call arena: a `StringView`, a `Buffer`, or a user type that may embed one.
pub open spec fn fn_arena(func: ResolvedFunction) -> bool {
    match func.returns {
        Some(ResolvedTypeRef::AbiType(AbiBuiltin::StringView)) => true,
        Some(ResolvedTypeRef::AbiType(AbiBuiltin::Buffer)) => true,
        Some(ResolvedTypeRef::UserDefined(_)) => true,
        _ => false,
    }
}

/// Whether a function needs a call arena.
pub fn fn_needs_arena(func: &ResolvedFunction) -> (r: bool)
    ensures
        r == fn_arena(*func),
{
    match &func.returns {
        Some(ResolvedTypeRef::AbiType(AbiBuiltin::StringView)) => true,
        Some(ResolvedTypeRef::AbiType(AbiBuiltin::Buffer)) => true,
        Some(ResolvedTypeRef::UserDefined(_)) => true,
        _ => false,
    }
}

/// Whether some function of the contract needs a call arena.
pub open spec fn contract_arena(c: ResolvedContract) -> bool {
    exists|i: int| 0 <= i < c.functions@.len() && fn_arena(#[trigger] c.functions@[i])
}

/// Whether some function of the contract needs a call arena.
pub fn contract_needs_arena(contract: &ResolvedContract) -> (r: bool)
    ensures
        r == contract_arena(*contract),
{
    let n: usize = contract.functions.len();
    let mut i: usize = 0;
    while i < n
        invariant
            n == contract.functions@.len(),
            i <= n,
            forall|k: int| 0 <= k < i ==> !fn_arena(#[trigger] contract.functions@[k]),
        decreases n - i,
    {
        if fn_needs_arena(&contract.functions[i]) {
            return true;
        }
        i = i + 1;
    }
    false
}

/// Emit the inline call-arena helpers used by per-caller arenas.
pub fn emit_cpp_call_arena_helpers(out: &mut String)
    ensures
        final(out)@ == old(out)@ + CPP_CALL_ARENA_HELPERS@,
{
    out.append(CPP_CALL_ARENA_HELPERS);
}

/// The lines that set up `args_ptr`: null, a pointer to the single user-type
/// argument, a pointer to a local copy of a single scalar, or a pointer to a
/// packed struct `<Class><Fn>Args` of several.
pub open spec fn cpp_args_ptr(class: Seq<char>, func: ResolvedFunction) -> Seq<char> {
    let ps = func.params@;
    if ps.len() == 0 {
        "        const void* args_ptr = nullptr;\n"@
    } else if ps.len() == 1 {
        let p = ps[0];
        match p.ty {
            ResolvedTypeRef::UserDefined(_) => "        const void* args_ptr = &"@ + p.name@ + ";\n"@,
            _ => "        const "@ + cpp_type(p.ty) + " local_"@ + p.name@ + " = "@ + p.name@ + ";\n        const void* args_ptr = &local_"@
                + p.name@ + ";\n"@,
        }
    } else {
        let st = class + capitalize(func.name@) + "Args"@;
        "        struct "@ + st + " {"@ + struct_fields(ps) + " };\n"@ + "        "@ + st + " args_val{ "@ + join_pieces(ps, 5)
            + " };\n"@ + "        const void* args_ptr = &args_val;\n"@
    }
}

/// Build the `args_ptr` set-up lines of a caller method.
pub fn build_args_ptr_code(class_name: &str, func: &ResolvedFunction) -> (r: String)
    ensures
        r@ == cpp_args_ptr(class_name@, *func),
{
    let mut code: String = String::new();
    let n: usize = func.params.len();
    if n == 0 {
        code.append("        const void* args_ptr = nullptr;\n");
    } else if n == 1 {
        let p: &ResolvedParam = &func.params[0];
        match &p.ty {
            ResolvedTypeRef::UserDefined(_) => {
                code.append("        const void* args_ptr = &");
                code.append(p.name.as_str());
                code.append(";\n");
            },
            _ => {
                let t: String = cpp_type_name(&p.ty);
                code.append("        const ");
                code.append(t.as_str());
                code.append(" local_");
                code.append(p.name.as_str());
                code.append(" = ");
                code.append(p.name.as_str());
                code.append(";\n        const void* args_ptr = &local_");
                code.append(p.name.as_str());
                code.append(";\n");
            },
        }
    } else {
        let mut st: String = String::new();
        st.append(class_name);
        let cap: String = capitalise_first(func.name.as_str());
        st.append(cap.as_str());
        st.append("Args");
        code.append("        struct ");
        code.append(st.as_str());
        code.append(" {");
        push_struct_fields(&mut code, &func.params);
        code.append(" };\n");
        code.append("        ");
        code.append(st.as_str());
        code.append(" args_val{ ");
        push_joined(&mut code, &func.params, 5);
        code.append(" };\n");
        code.append("        const void* args_ptr = &args_val;\n");
    }
    code
}

/// The head of a host caller method: doc, signature, arena reset.
pub open spec fn cpp_host_function_head(acc: Seq<char>, func: ResolvedFunction) -> Seq<char> {
    acc + "    /// Call `"@ + func.name@
        + "` (function_id="@ + dec_digits((func.function_id) as nat) + ")\n"@
        + (if fn_arena(func) { "    /// Returns a value borrowing this caller's arena; it stays valid until\n    /// the next arena-backed call on this caller.\n"@ } else { Seq::<char>::empty() }) + "    "@ + cpp_ret(func.returns)
        + " "@ + func.name@ + "("@
        + join_pieces(func.params@, 1) + ") {\n"@ + (if fn_arena(func) { "        // Reset the arena at call start: frees the previous call's overflow\n        // blocks and rewinds the primary region, invalidating prior views.\n        polyplug_arena_reset(&arena_);\n"@ } else { Seq::<char>::empty() })
}

/// The body of a host caller method after the arguments: checks, dispatch, result.
pub open spec fn cpp_host_function_tail(acc: Seq<char>, func: ResolvedFunction) -> Seq<char> {
    acc + "        // SAFETY: interface_ is valid for the lifetime of this wrapper.\n        if (!interface_) {\n            static constexpr const char* err_msg = \"interface is null\";\n            polyplug::check_abi_error(AbiError{static_cast<uint32_t>(AbiErrorCode::InvalidPointer), StringView{reinterpret_cast<const uint8_t*>(err_msg), 16}});\n        }\n"@ + (if is_void_ret(func.returns) { "        void* out_ptr = nullptr;\n"@ } else { "        "@ + cpp_ret(func.returns) + " out{};\n        void* out_ptr = &out;\n"@ })
        + "        if ("@ + dec_digits((func.function_id) as nat) + "U >= interface_->dispatch.native.function_count) {\n            static constexpr const char* err_msg = \"function not available in interface\";\n            polyplug::check_abi_error(AbiError{static_cast<uint32_t>(AbiErrorCode::FunctionNotAvailable), StringView{reinterpret_cast<const uint8_t*>(err_msg), 32}});\n        }\n        AbiError err{};\n        switch (interface_->dispatch_type) {\n            case DispatchType::Native: {\n                auto fn_ = reinterpret_cast<AbiError(*)(GuestContractInstance, const void*, void*)>(interface_->dispatch.native.functions["@
        + dec_digits((func.function_id) as nat) + "U]);\n                // SAFETY: instance_ is the token returned by create_instance and is valid.\n                // args_ptr/out_ptr match the ABI contract for this function.\n                err = fn_(instance_, args_ptr, "@ + "out_ptr"@
        + ");\n                break;\n            }\n            case DispatchType::VirtualMachine: {\n                err = (interface_->dispatch.vm.call)(interface_->dispatch.vm.loader_data, instance_, "@ + dec_digits((func.function_id) as nat) + "U, args_ptr, "@
        + "out_ptr"@ + ", "@ + (if fn_arena(func) { "&arena_"@ } else { "nullptr"@ })
        + ");\n                break;\n            }\n        }\n        polyplug::check_abi_error(err);\n"@ + (if !is_void_ret(func.returns) { "        return out;\n"@ } else { Seq::<char>::empty() }) + "    }\n\n"@
}

/// One method of a host caller: argument packing, the function-id check,
/// dispatch by the interface's dispatch type, the error check.
pub open spec fn cpp_host_function(acc: Seq<char>, class: Seq<char>, func: ResolvedFunction) -> Seq<char> {
    cpp_host_function_tail(cpp_host_function_head(acc, func) + cpp_args_ptr(class, func), func)
}

fn push_host_function_head(out: &mut String, func: &ResolvedFunction)
    ensures
        final(out)@ == cpp_host_function_head(old(out)@, *func),
{
    let ret: String = cpp_ret_name(&func.returns);
    let na: bool = fn_needs_arena(func);
    out.append("    /// Call `");
    out.append(func.name.as_str());
    out.append("` (function_id=");
    push_u32(out, func.function_id);
    out.append(")\n");
    if na {
        out.append("    /// Returns a value borrowing this caller's arena; it stays valid until\n    /// the next arena-backed call on this caller.\n");
    }
    out.append("    ");
    out.append(ret.as_str());
    out.append(" ");
    out.append(func.name.as_str());
    out.append("(");
    push_joined(out, &func.params, 1);
    out.append(") {\n");
    if na {
        out.append("        // Reset the arena at call start: frees the previous call's overflow\n        // blocks and rewinds the primary region, invalidating prior views.\n        polyplug_arena_reset(&arena_);\n");
    }
}

fn push_host_function_tail(out: &mut String, func: &ResolvedFunction)
    ensures
        final(out)@ == cpp_host_function_tail(old(out)@, *func),
{
    let ret: String = cpp_ret_name(&func.returns);
    let na: bool = fn_needs_arena(func);
    let void_ret: bool = is_void_return(&func.returns);
    let arena_arg: &str = if na {
        "&arena_"
    } else {
        "nullptr"
    };
    out.append("        // SAFETY: interface_ is valid for the lifetime of this wrapper.\n        if (!interface_) {\n            static constexpr const char* err_msg = \"interface is null\";\n            polyplug::check_abi_error(AbiError{static_cast<uint32_t>(AbiErrorCode::InvalidPointer), StringView{reinterpret_cast<const uint8_t*>(err_msg), 16}});\n        }\n");
    if void_ret {
        out.append("        void* out_ptr = nullptr;\n");
    } else {
        out.append("        ");
        out.append(ret.as_str());
        out.append(" out{};\n        void* out_ptr = &out;\n");
    }
    out.append("        if (");
    push_u32(out, func.function_id);
    out.append("U >= interface_->dispatch.native.function_count) {\n            static constexpr const char* err_msg = \"function not available in interface\";\n            polyplug::check_abi_error(AbiError{static_cast<uint32_t>(AbiErrorCode::FunctionNotAvailable), StringView{reinterpret_cast<const uint8_t*>(err_msg), 32}});\n        }\n        AbiError err{};\n        switch (interface_->dispatch_type) {\n            case DispatchType::Native: {\n                auto fn_ = reinterpret_cast<AbiError(*)(GuestContractInstance, const void*, void*)>(interface_->dispatch.native.functions[");
    push_u32(out, func.function_id);
    out.append("U]);\n                // SAFETY: instance_ is the token returned by create_instance and is valid.\n                // args_ptr/out_ptr match the ABI contract for this function.\n                err = fn_(instance_, args_ptr, ");
    out.append("out_ptr");
    out.append(");\n                break;\n            }\n            case DispatchType::VirtualMachine: {\n                err = (interface_->dispatch.vm.call)(interface_->dispatch.vm.loader_data, instance_, ");
    push_u32(out, func.function_id);
    out.append("U, args_ptr, ");
    out.append("out_ptr");
    out.append(", ");
    out.append(arena_arg);
    out.append(");\n                break;\n            }\n        }\n        polyplug::check_abi_error(err);\n");
    if !void_ret {
        out.append("        return out;\n");
    }
    out.append("    }\n\n");
}

/// Emit one method of a host caller.
pub fn generate_cpp_host_function(out: &mut String, class_name: &str, func: &ResolvedFunction) -> (r: Result<(), crate::error::CodegenError>)
    ensures
        r is Ok,
        final(out)@ == cpp_host_function(old(out)@, class_name@, *func),
{
    push_host_function_head(out, func);
    let args_code: String = build_args_ptr_code(class_name, func);
    out.append(args_code.as_str());
    push_host_function_tail(out, func);
    Ok(())
}


/// The methods of a host caller.
pub open spec fn cpp_host_functions(acc: Seq<char>, class: Seq<char>, funcs: Seq<ResolvedFunction>) -> Seq<char>
    decreases funcs.len(),
{
    if funcs.len() == 0 {
        acc
    } else {
        cpp_host_function(cpp_host_functions(acc, class, funcs.drop_last()), class, funcs.last())
    }
}

/// The head of a host caller class, up to its methods.
pub open spec fn cpp_host_contract_head(acc: Seq<char>, contract: ResolvedContract) -> Seq<char> {
    let class = cpp_class(contract.name@);
    let na = contract_arena(contract);
    acc + "/// Host caller for contract `"@ + contract.name@
        + "` (id=0x"@ + hex_digits((contract.contract_id) as nat, 16) + ")\n///\n/// RAII wrapper that manages instance lifecycle:\n/// - `create()`: resolves handle and calls `create_instance`\n/// - destructor: calls `destroy_instance` to clean up\n/// - dispatch: passes `instance_` to all method calls\n"@
        + (if na { "///\n/// # Call-arena lifetime\n///\n/// Methods returning variable-size values (`StringView`, `Buffer`, or structs\n/// that may embed one) are non-const and reset this caller's arena at the start\n/// of the call. Any view returned by such a method borrows arena memory and is\n/// valid only until the next arena-backed call on the same caller.\n"@ } else { Seq::<char>::empty() }) + "class "@ + class
        + " {\npublic:\n    /// Factory method - creates instance or nullopt if not found.\n    /// Calls `create_instance` on the resolved interface.\n    ///\n    /// # Arguments\n    /// - `handle`: Contract handle from `find_guest_contract`\n    /// - `host`: Host interface pointer\n    ///\n    /// # Returns\n    /// - `std::optional<Self>` if interface found and instance created\n    /// - `std::nullopt` if interface not found or `create_instance` failed\n    static std::optional<"@ + class + "> create(GuestContractHandle handle, const HostApi* host) noexcept {\n        if (host == nullptr) {\n            return std::nullopt;\n        }\n        // Resolve the interface from the handle via HostApi method.\n        const GuestContractInterface* iface = host->resolve_guest_contract(host, handle);\n        if (iface == nullptr) {\n            return std::nullopt;\n        }\n        // Create instance via factory function.\n        // A null `instance.data` is valid: stateless contracts return a null\n        // handle from `create_instance` and use it as an opaque dispatch token.\n        GuestContractInstance instance = iface->create_instance(host, nullptr);\n        return "@
        + class + "(iface, instance, host);\n    }\n\n    /// Destructor - calls `destroy_instance` to clean up.\n    ~"@ + class
        + "() noexcept {\n"@ + (if na { "        // Free any overflow blocks the arena still holds before destruction.\n        // arena_buf_ is null only on a moved-from caller.\n        if (arena_buf_) {\n            polyplug_arena_free_all(&arena_);\n        }\n"@ } else { Seq::<char>::empty() }) + "        // Destroy instance via factory\n        // SAFETY: instance was created by create_instance and is valid.\n        if (instance_.data != nullptr) {\n            interface_->destroy_instance(host_, instance_);\n            instance_.data = nullptr;  // Prevent reuse after cleanup.\n        }\n    }\n\n    // Move-only (instance handles are unique)\n    "@
        + class + "("@ + class
        + "&& other) noexcept\n        : interface_(other.interface_),\n          instance_(other.instance_),\n"@ + (if na { "          host_(other.host_),\n          arena_buf_(std::move(other.arena_buf_)),\n          arena_(other.arena_) {\n"@ } else { "          host_(other.host_) {\n"@ }) + "        other.instance_.data = nullptr;  // Prevent double-destroy.\n    }\n    "@
        + class + "& operator=("@ + class
        + "&& other) noexcept {\n        if (this != &other) {\n"@ + (if na { "            // Release this caller's overflow blocks before overwriting.\n            if (arena_buf_) {\n                polyplug_arena_free_all(&arena_);\n            }\n"@ } else { Seq::<char>::empty() }) + "            // Destroy current instance first\n            if (instance_.data != nullptr) {\n                interface_->destroy_instance(host_, instance_);\n            }\n            interface_ = other.interface_; instance_ = other.instance_; host_ = other.host_; other.instance_.data = nullptr;\n"@
        + (if na { "            arena_buf_ = std::move(other.arena_buf_); arena_ = other.arena_;\n"@ } else { Seq::<char>::empty() }) + "        }\n        return *this;\n    }\n    "@ + class
        + "(const "@ + class + "&) = delete;\n    "@
        + class + "& operator=(const "@ + class
        + "&) = delete;\n\n    /// Check if this caller holds a resolved contract interface.\n    /// Keys off the interface pointer, not `instance_.data`: stateless\n    /// contracts legitimately use a null instance as an opaque dispatch token.\n    explicit operator bool() const noexcept { return interface_ != nullptr; }\n\n    /// Check if this caller holds a resolved contract interface.\n    bool is_valid() const noexcept { return interface_ != nullptr; }\n\n    /// Destroy current instance and create a new one.\n    /// Useful for recovering from plugin errors.\n    void reset() noexcept {\n        if (instance_.data != nullptr) {\n            interface_->destroy_instance(host_, instance_);\n        }\n        instance_ = interface_->create_instance(host_, nullptr);\n    }\n\n"@
}

/// The end of a host caller class after its methods.
pub open spec fn cpp_host_contract_tail(acc: Seq<char>, class: Seq<char>, na: bool) -> Seq<char> {
    acc + "private:\n    /// Resolved interface pointer from the registry.\n    const GuestContractInterface* interface_;\n    /// Instance handle created by `create_instance`.\n    GuestContractInstance instance_;\n    /// Host interface pointer (needed for create/destroy_instance).\n    const HostApi* host_;\n"@ + (if na { "    /// Stable-address backing buffer for the per-call arena. Held by unique_ptr\n    /// so the arena's interior pointers survive moving the caller value.\n    std::unique_ptr<std::array<uint8_t, CALL_ARENA_BUF_LEN>> arena_buf_;\n    /// Per-call bump arena over `arena_buf_`, reset at each arena-backed call.\n    CallArena arena_;\n"@ } else { Seq::<char>::empty() })
        + "\n"@ + (if na { "    explicit "@ + class + "(const GuestContractInterface* iface, GuestContractInstance inst, const HostApi* host)\n        : interface_(iface), instance_(inst), host_(host),\n          arena_buf_(std::make_unique<std::array<uint8_t, CALL_ARENA_BUF_LEN>>()),\n          arena_(polyplug_arena_new(arena_buf_->data(), CALL_ARENA_BUF_LEN, host)) {}\n"@ } else { "    explicit "@ + class + "(const GuestContractInterface* iface, GuestContractInstance inst, const HostApi* host) noexcept\n        : interface_(iface), instance_(inst), host_(host) {}\n"@ }) + "};\n\n"@
}

/// The RAII host caller class of a guest contract.
pub open spec fn cpp_host_contract(acc: Seq<char>, contract: ResolvedContract) -> Seq<char> {
    let class = cpp_class(contract.name@);
    cpp_host_contract_tail(
        cpp_host_functions(cpp_host_contract_head(acc, contract), class, contract.functions@),
        class,
        contract_arena(contract),
    )
}

fn push_host_contract_head(out: &mut String, contract: &ResolvedContract, class_name: &String, na: bool)
    requires
        class_name@ == cpp_class(contract.name@),
        na == contract_arena(*contract),
    ensures
        final(out)@ == cpp_host_contract_head(old(out)@, *contract),
{
    let ghost class = class_name@;
    out.append("/// Host caller for contract `");
    out.append(contract.name.as_str());
    out.append("` (id=0x");
    push_hex16(out, contract.contract_id);
    out.append(")\n///\n/// RAII wrapper that manages instance lifecycle:\n/// - `create()`: resolves handle and calls `create_instance`\n/// - destructor: calls `destroy_instance` to clean up\n/// - dispatch: passes `instance_` to all method calls\n");
    if na {
        out.append("///\n/// # Call-arena lifetime\n///\n/// Methods returning variable-size values (`StringView`, `Buffer`, or structs\n/// that may embed one) are non-const and reset this caller's arena at the start\n/// of the call. Any view returned by such a method borrows arena memory and is\n/// valid only until the next arena-backed call on the same caller.\n");
    }
    out.append("class ");
    out.append(class_name.as_str());
    out.append(" {\npublic:\n    /// Factory method - creates instance or nullopt if not found.\n    /// Calls `create_instance` on the resolved interface.\n    ///\n    /// # Arguments\n    /// - `handle`: Contract handle from `find_guest_contract`\n    /// - `host`: Host interface pointer\n    ///\n    /// # Returns\n    /// - `std::optional<Self>` if interface found and instance created\n    /// - `std::nullopt` if interface not found or `create_instance` failed\n    static std::optional<");
    out.append(class_name.as_str());
    out.append("> create(GuestContractHandle handle, const HostApi* host) noexcept {\n        if (host == nullptr) {\n            return std::nullopt;\n        }\n        // Resolve the interface from the handle via HostApi method.\n        const GuestContractInterface* iface = host->resolve_guest_contract(host, handle);\n        if (iface == nullptr) {\n            return std::nullopt;\n        }\n        // Create instance via factory function.\n        // A null `instance.data` is valid: stateless contracts return a null\n        // handle from `create_instance` and use it as an opaque dispatch token.\n        GuestContractInstance instance = iface->create_instance(host, nullptr);\n        return ");
    out.append(class_name.as_str());
    out.append("(iface, instance, host);\n    }\n\n    /// Destructor - calls `destroy_instance` to clean up.\n    ~");
    out.append(class_name.as_str());
    out.append("() noexcept {\n");
    if na {
        out.append("        // Free any overflow blocks the arena still holds before destruction.\n        // arena_buf_ is null only on a moved-from caller.\n        if (arena_buf_) {\n            polyplug_arena_free_all(&arena_);\n        }\n");
    }
    out.append("        // Destroy instance via factory\n        // SAFETY: instance was created by create_instance and is valid.\n        if (instance_.data != nullptr) {\n            interface_->destroy_instance(host_, instance_);\n            instance_.data = nullptr;  // Prevent reuse after cleanup.\n        }\n    }\n\n    // Move-only (instance handles are unique)\n    ");
    out.append(class_name.as_str());
    out.append("(");
    out.append(class_name.as_str());
    out.append("&& other) noexcept\n        : interface_(other.interface_),\n          instance_(other.instance_),\n");
    if na {
        out.append("          host_(other.host_),\n          arena_buf_(std::move(other.arena_buf_)),\n          arena_(other.arena_) {\n");
    } else {
        out.append("          host_(other.host_) {\n");
    }
    out.append("        other.instance_.data = nullptr;  // Prevent double-destroy.\n    }\n    ");
    out.append(class_name.as_str());
    out.append("& operator=(");
    out.append(class_name.as_str());
    out.append("&& other) noexcept {\n        if (this != &other) {\n");
    if na {
        out.append("            // Release this caller's overflow blocks before overwriting.\n            if (arena_buf_) {\n                polyplug_arena_free_all(&arena_);\n            }\n");
    }
    out.append("            // Destroy current instance first\n            if (instance_.data != nullptr) {\n                interface_->destroy_instance(host_, instance_);\n            }\n            interface_ = other.interface_; instance_ = other.instance_; host_ = other.host_; other.instance_.data = nullptr;\n");
    if na {
        out.append("            arena_buf_ = std::move(other.arena_buf_); arena_ = other.arena_;\n");
    }
    out.append("        }\n        return *this;\n    }\n    ");
    out.append(class_name.as_str());
    out.append("(const ");
    out.append(class_name.as_str());
    out.append("&) = delete;\n    ");
    out.append(class_name.as_str());
    out.append("& operator=(const ");
    out.append(class_name.as_str());
    out.append("&) = delete;\n\n    /// Check if this caller holds a resolved contract interface.\n    /// Keys off the interface pointer, not `instance_.data`: stateless\n    /// contracts legitimately use a null instance as an opaque dispatch token.\n    explicit operator bool() const noexcept { return interface_ != nullptr; }\n\n    /// Check if this caller holds a resolved contract interface.\n    bool is_valid() const noexcept { return interface_ != nullptr; }\n\n    /// Destroy current instance and create a new one.\n    /// Useful for recovering from plugin errors.\n    void reset() noexcept {\n        if (instance_.data != nullptr) {\n            interface_->destroy_instance(host_, instance_);\n        }\n        instance_ = interface_->create_instance(host_, nullptr);\n    }\n\n");
}

fn push_host_contract_tail(out: &mut String, class_name: &String, na: bool)
    ensures
        final(out)@ == cpp_host_contract_tail(old(out)@, class_name@, na),
{
    let ghost class = class_name@;
    out.append("private:\n    /// Resolved interface pointer from the registry.\n    const GuestContractInterface* interface_;\n    /// Instance handle created by `create_instance`.\n    GuestContractInstance instance_;\n    /// Host interface pointer (needed for create/destroy_instance).\n    const HostApi* host_;\n");
    if na {
        out.append("    /// Stable-address backing buffer for the per-call arena. Held by unique_ptr\n    /// so the arena's interior pointers survive moving the caller value.\n    std::unique_ptr<std::array<uint8_t, CALL_ARENA_BUF_LEN>> arena_buf_;\n    /// Per-call bump arena over `arena_buf_`, reset at each arena-backed call.\n    CallArena arena_;\n");
    }
    out.append("\n");
    if na {
        out.append("    explicit ");
        out.append(class_name.as_str());
        out.append("(const GuestContractInterface* iface, GuestContractInstance inst, const HostApi* host)\n        : interface_(iface), instance_(inst), host_(host),\n          arena_buf_(std::make_unique<std::array<uint8_t, CALL_ARENA_BUF_LEN>>()),\n          arena_(polyplug_arena_new(arena_buf_->data(), CALL_ARENA_BUF_LEN, host)) {}\n");
    } else {
        out.append("    explicit ");
        out.append(class_name.as_str());
        out.append("(const GuestContractInterface* iface, GuestContractInstance inst, const HostApi* host) noexcept\n        : interface_(iface), instance_(inst), host_(host) {}\n");
    }
    out.append("};\n\n");
}

/// Emit the RAII host caller class of a guest contract: factory, destructor,
/// moves, validity checks, one method per function, members.
pub fn generate_cpp_host_contract(out: &mut String, contract: &ResolvedContract) -> (r: Result<(), crate::error::CodegenError>)
    ensures
        r is Ok,
        final(out)@ == cpp_host_contract(old(out)@, *contract),
{
    let class_name: String = contract_name_to_class(contract.name.as_str());
    let na: bool = contract_needs_arena(contract);
    push_host_contract_head(out, contract, &class_name, na);
    let ghost s0 = out@;
    let n: usize = contract.functions.len();
    let mut i: usize = 0;
    while i < n
        invariant
            n == contract.functions@.len(),
            i <= n,
            class_name@ == cpp_class(contract.name@),
            out@ == cpp_host_functions(s0, class_name@, contract.functions@.take(i as int)),
        decreases n - i,
    {
        let _ = generate_cpp_host_function(out, class_name.as_str(), &contract.functions[i]);
        assert(contract.functions@.take(i + 1).drop_last() =~= contract.functions@.take(i as int));
        i = i + 1;
    }
    assert(contract.functions@.take(n as int) =~= contract.functions@);
    push_host_contract_tail(out, &class_name, na);
    Ok(())
}


/// The host callers of every guest contract.
pub open spec fn cpp_host_contracts(acc: Seq<char>, contracts: Seq<ResolvedContract>) -> Seq<char>
    decreases contracts.len(),
{
    if contracts.len() == 0 {
        acc
    } else {
        cpp_host_contract(cpp_host_contracts(acc, contracts.drop_last()), contracts.last())
    }
}

/// Whether some guest contract needs a call arena.
pub open spec fn any_contract_arena(contracts: Seq<ResolvedContract>) -> bool {
    exists|i: int| 0 <= i < contracts.len() && contract_arena(#[trigger] contracts[i])
}

fn any_needs_arena(contracts: &[&ResolvedContract]) -> (r: bool)
    ensures
        r == any_contract_arena(derefs(contracts@)),
{
    let ghost cs = derefs(contracts@);
    let n: usize = contracts.len();
    let mut i: usize = 0;
    while i < n
        invariant
            n == contracts@.len(),
            cs == derefs(contracts@),
            i <= n,
            forall|k: int| 0 <= k < i ==> !contract_arena(#[trigger] cs[k]),
        decreases n - i,
    {
        assert(cs[i as int] == *contracts@[i as int]);
        if contract_needs_arena(contracts[i]) {
            return true;
        }
        i = i + 1;
    }
    false
}

/// `host/host_callers.hpp`: the bundle id, the arena helpers when a contract
/// needs them, and a host caller per guest contract.
pub open spec fn cpp_host_callers_hpp(ir: ValidatedIr) -> Seq<char> {
    let head = CPP_API_HEADER@ + CPP_HOST_CALLERS_HEAD@;
    let with_id = match ir.bundle {
        Some(b) => head + "static constexpr uint64_t MY_BUNDLE_ID = "@ + dec_digits(b.bundle_id as nat) + "ULL;\n\n"@,
        None => head,
    };
    let with_arena = if any_contract_arena(ir.contracts@) {
        with_id + CPP_CALL_ARENA_HELPERS@
    } else {
        with_id
    };
    cpp_host_contracts(with_arena, ir.contracts@) + "}  // namespace polyplug_generated\n"@
}

/// Generate `host/host_callers.hpp`.
#[verifier::rlimit(80)]
pub fn generate_host_callers_hpp(ir: &ValidatedIr) -> (r: Result<String, crate::error::CodegenError>)
    ensures
        r matches Ok(s) && s@ == cpp_host_callers_hpp(*ir),
{
    let mut out: String = String::new();
    out.append(CPP_API_HEADER);
    out.append(CPP_HOST_CALLERS_HEAD);
    match &ir.bundle {
        Some(b) => {
            out.append("static constexpr uint64_t MY_BUNDLE_ID = ");
            push_u64(&mut out, b.bundle_id);
            out.append("ULL;\n\n");
        },
        None => {},
    }
    let refs: Vec<&ResolvedContract> = crate::generators::lua::contract_refs(&ir.contracts);
    if any_needs_arena(refs.as_slice()) {
        emit_cpp_call_arena_helpers(&mut out);
    }
    let ghost s0 = out@;
    let n: usize = ir.contracts.len();
    let mut i: usize = 0;
    while i < n
        invariant
            n == ir.contracts@.len(),
            i <= n,
            out@ == cpp_host_contracts(s0, ir.contracts@.take(i as int)),
        decreases n - i,
    {
        let _ = generate_cpp_host_contract(&mut out, &ir.contracts[i]);
        assert(ir.contracts@.take(i + 1).drop_last() =~= ir.contracts@.take(i as int));
        i = i + 1;
    }
    assert(ir.contracts@.take(n as int) =~= ir.contracts@);
    out.append("}  // namespace polyplug_generated\n");
    Ok(out)
}

// ─── manifest.toml ──────────────────────────────────────────────────────────

/// Generate the `manifest.toml` of an API generation.
pub fn generate_manifest_toml() -> (r: String)
    ensures
        r@ == CPP_MANIFEST@,
{
    CPP_MANIFEST.to_owned()
}

/// `manifest.toml` of a C++ bundle: always the native runtime.
pub open spec fn cpp_bundle_manifest(ir: ValidatedIr) -> Seq<char> {
    match ir.bundle {
        Some(b) => bundle_manifest(b, ir.contracts@, "runtime = \"native\"\n"@),
        None => MANIFEST_NO_BUNDLE@,
    }
}

/// Generate the discovery `manifest.toml` of a C++ bundle.
pub fn generate_bundle_manifest_cpp(ir: &ValidatedIr) -> (r: String)
    ensures
        r@ == cpp_bundle_manifest(*ir),
{
    match &ir.bundle {
        Some(b) => render_bundle_manifest(b, &ir.contracts, "runtime = \"native\"\n"),
        None => MANIFEST_NO_BUNDLE.to_owned(),
    }
}
/// The includes and namespace opening of `guest/host_contracts.hpp`.
pub const CPP_GUEST_HOST_CONTRACTS_HEAD: &'static str = "#include \"types.hpp\"\n#include \"polyplug/abi.hpp\"\n#include <cstdint>\n#include <optional>\n#include <span>\n#include <string_view>\n\n";

/// The includes and namespace opening of `host/host_contracts.hpp`.
pub const CPP_HOST_CONTRACTS_HEAD: &'static str = "#include \"types.hpp\"\n#include \"polyplug/abi.hpp\"\n#include <cstdint>\n\n";

// ─── Guest-side host contract callers ───────────────────────────────────────

/// The return type of a guest caller method: its borrowed-view type, or `void`.
pub open spec fn cpp_guest_ret(ret: Option<ResolvedTypeRef>) -> Seq<char> {
    match ret {
        Some(t) => cpp_guest_return_type(t),
        None => "void"@,
    }
}

/// The `args_ptr` set-up lines of a guest caller method: string views wrapped
/// as `StringView`, user types by pointer, scalars through a local copy,
/// several arguments through a packed struct.
pub open spec fn cpp_guest_args(class: Seq<char>, func: ResolvedFunction) -> Seq<char> {
    let ps = func.params@;
    if ps.len() == 0 {
        "        const void* args_ptr = nullptr;\n"@
    } else if ps.len() == 1 {
        let p = ps[0];
        let n = p.name@;
        match p.ty {
            ResolvedTypeRef::AbiType(AbiBuiltin::StringView) => "        StringView "@ + n + "_view{ reinterpret_cast<const uint8_t*>("@ + n
                + ".data()), "@ + n + ".size() };\n"@ + "        const void* args_ptr = &"@ + n + "_view;\n"@,
            ResolvedTypeRef::UserDefined(_) => "        const void* args_ptr = &"@ + n + ";\n"@,
            _ => "        const "@ + cpp_type(p.ty) + " local_"@ + n + " = "@ + n + ";\n"@ + "        const void* args_ptr = &local_"@ + n
                + ";\n"@,
        }
    } else {
        let st = class + capitalize(func.name@) + "Args"@;
        "        struct "@ + st + " {"@ + struct_fields(ps) + " };\n"@ + "        "@ + st + " args_val{ "@ + join_pieces(ps, 4)
            + " };\n"@ + "        const void* args_ptr = &args_val;\n"@
    }
}

/// Emit the `args_ptr` set-up of a guest caller method.
pub fn emit_cpp_guest_host_contract_args_setup(out: &mut String, func: &ResolvedFunction, class_name: &str)
    ensures
        final(out)@ == old(out)@ + cpp_guest_args(class_name@, *func),
{
    let n: usize = func.params.len();
    if n == 0 {
        out.append("        const void* args_ptr = nullptr;\n");
    } else if n == 1 {
        let p: &ResolvedParam = &func.params[0];
        let name: &str = p.name.as_str();
        match &p.ty {
            ResolvedTypeRef::AbiType(AbiBuiltin::StringView) => {
                out.append("        StringView ");
                out.append(name);
                out.append("_view{ reinterpret_cast<const uint8_t*>(");
                out.append(name);
                out.append(".data()), ");
                out.append(name);
                out.append(".size() };\n");
                out.append("        const void* args_ptr = &");
                out.append(name);
                out.append("_view;\n");
            },
            ResolvedTypeRef::UserDefined(_) => {
                out.append("        const void* args_ptr = &");
                out.append(name);
                out.append(";\n");
            },
            _ => {
                let t: String = cpp_type_name(&p.ty);
                out.append("        const ");
                out.append(t.as_str());
                out.append(" local_");
                out.append(name);
                out.append(" = ");
                out.append(name);
                out.append(";\n");
                out.append("        const void* args_ptr = &local_");
                out.append(name);
                out.append(";\n");
            },
        }
    } else {
        let mut st: String = String::new();
        st.append(class_name);
        let cap: String = capitalise_first(func.name.as_str());
        st.append(cap.as_str());
        st.append("Args");
        out.append("        struct ");
        out.append(st.as_str());
        out.append(" {");
        push_struct_fields(out, &func.params);
        out.append(" };\n");
        out.append("        ");
        out.append(st.as_str());
        out.append(" args_val{ ");
        push_joined(out, &func.params, 4);
        out.append(" };\n");
        out.append("        const void* args_ptr = &args_val;\n");
    }
}

/// The `out_ptr` set-up of a guest caller method: an ABI-typed `out` local.
pub open spec fn cpp_guest_out(ret: Option<ResolvedTypeRef>) -> Seq<char> {
    match ret {
        Some(t) => "        "@ + cpp_guest_out_local_type(t) + " out{};\n"@ + "        void* out_ptr = &out;\n"@,
        None => "        void* out_ptr = nullptr;\n"@,
    }
}

/// Emit the `out_ptr` set-up of a guest caller method.
pub fn emit_cpp_guest_host_contract_out_setup(out: &mut String, ret: &Option<ResolvedTypeRef>)
    ensures
        final(out)@ == old(out)@ + cpp_guest_out(*ret),
{
    match ret {
        Some(t) => {
            let ty: String = cpp_guest_caller_out_local_type_name(t);
            out.append("        ");
            out.append(ty.as_str());
            out.append(" out{};\n");
            out.append("        void* out_ptr = &out;\n");
        },
        None => {
            out.append("        void* out_ptr = nullptr;\n");
        },
    }
}

/// One method of a guest-side host contract caller.
pub open spec fn cpp_guest_host_method(acc: Seq<char>, func: ResolvedFunction, class: Seq<char>) -> Seq<char> {
    let tail = acc + "    /// Call host contract function `"@ + func.name@
        + "` (function_id="@ + dec_digits((func.function_id) as nat) + ")\n    "@
        + cpp_guest_ret(func.returns) + " "@ + func.name@
        + "("@ + join_pieces(func.params@, 2) + ") noexcept {\n"@
        + "        if (interface_ == nullptr) {\n"@ + (if func.returns is Some { "            return "@ + cpp_guest_ret(func.returns) + "{};\n"@ } else { "            return;\n"@ }) + "        }\n\n        if ("@
        + dec_digits((func.function_id) as nat) + "U >= interface_->dispatch.native.function_count) {\n"@ + (if func.returns is Some { "            return "@ + cpp_guest_ret(func.returns) + "{};\n"@ } else { "            return;\n"@ })
        + "        }\n\n"@ + cpp_guest_args(class, func) + cpp_guest_out(func.returns) + "        AbiError err;\n        switch (interface_->dispatch_type) {\n            case DispatchType::Native: {\n                auto fn_ = reinterpret_cast<AbiError(*)(HostContractInstance, const void*, void*)>(interface_->dispatch.native.functions["@
        + dec_digits((func.function_id) as nat) + "U]);\n                err = fn_(instance_, args_ptr, out_ptr);\n                break;\n            }\n            case DispatchType::VirtualMachine: {\n                err = (interface_->dispatch.vm.call)(interface_->dispatch.vm.loader_data, GuestContractInstance{}, "@ + dec_digits((func.function_id) as nat)
        + "U, args_ptr, out_ptr, nullptr);\n                break;\n            }\n        }\n\n        if (err.code != static_cast<uint32_t>(AbiErrorCode::Ok)) {\n"@ + (if func.returns is Some { "            return "@ + cpp_guest_ret(func.returns) + "{};\n"@ } else { "            return;\n"@ }) + "        }\n\n"@;
    match func.returns {
        Some(t) => tail + "        return "@ + cpp_guest_return(t) + ";\n"@ + "    }\n\n"@,
        None => tail + "    }\n\n"@,
    }
}

/// Emit one method of a guest-side host contract caller.
#[verifier::rlimit(60)]
pub fn generate_cpp_guest_host_contract_method(out: &mut String, func: &ResolvedFunction, class_name: &str)
    ensures
        final(out)@ == cpp_guest_host_method(old(out)@, *func, class_name@),
{
    let ghost class = class_name@;
    let has_ret: bool = func.returns.is_some();
    let ret: String = match &func.returns {
        Some(t) => cpp_guest_caller_return_type_name(t),
        None => "void".to_owned(),
    };
    out.append("    /// Call host contract function `");
    out.append(func.name.as_str());
    out.append("` (function_id=");
    push_u32(out, func.function_id);
    out.append(")\n    ");
    out.append(ret.as_str());
    out.append(" ");
    out.append(func.name.as_str());
    out.append("(");
    push_joined(out, &func.params, 2);
    out.append(") noexcept {\n");
    out.append("        if (interface_ == nullptr) {\n");
    if has_ret {
        out.append("            return ");
        out.append(ret.as_str());
        out.append("{};\n");
    } else {
        out.append("            return;\n");
    }
    out.append("        }\n\n        if (");
    push_u32(out, func.function_id);
    out.append("U >= interface_->dispatch.native.function_count) {\n");
    if has_ret {
        out.append("            return ");
        out.append(ret.as_str());
        out.append("{};\n");
    } else {
        out.append("            return;\n");
    }
    out.append("        }\n\n");
    emit_cpp_guest_host_contract_args_setup(out, func, class_name);
    emit_cpp_guest_host_contract_out_setup(out, &func.returns);
    out.append("        AbiError err;\n        switch (interface_->dispatch_type) {\n            case DispatchType::Native: {\n                auto fn_ = reinterpret_cast<AbiError(*)(HostContractInstance, const void*, void*)>(interface_->dispatch.native.functions[");
    push_u32(out, func.function_id);
    out.append("U]);\n                err = fn_(instance_, args_ptr, out_ptr);\n                break;\n            }\n            case DispatchType::VirtualMachine: {\n                err = (interface_->dispatch.vm.call)(interface_->dispatch.vm.loader_data, GuestContractInstance{}, ");
    push_u32(out, func.function_id);
    out.append("U, args_ptr, out_ptr, nullptr);\n                break;\n            }\n        }\n\n        if (err.code != static_cast<uint32_t>(AbiErrorCode::Ok)) {\n");
    if has_ret {
        out.append("            return ");
        out.append(ret.as_str());
        out.append("{};\n");
    } else {
        out.append("            return;\n");
    }
    out.append("        }\n\n");
    match &func.returns {
        Some(t) => {
            let expr: String = cpp_guest_caller_return_expr(t);
            out.append("        return ");
            out.append(expr.as_str());
            out.append(";\n");
        },
        None => {},
    }
    out.append("    }\n\n");
}

/// The methods of a guest-side host contract caller.
pub open spec fn cpp_guest_host_methods(acc: Seq<char>, funcs: Seq<ResolvedFunction>, class: Seq<char>) -> Seq<char>
    decreases funcs.len(),
{
    if funcs.len() == 0 {
        acc
    } else {
        cpp_guest_host_method(cpp_guest_host_methods(acc, funcs.drop_last(), class), funcs.last(), class)
    }
}

/// The guest-side caller class of a host contract.
pub open spec fn cpp_guest_host_caller(acc: Seq<char>, contract: ResolvedHostContract) -> Seq<char> {
    let class = cpp_host_caller(contract.name@);
    let head = acc + "/// Guest caller for host contract `"@ + contract.name@
        + "` (id=0x"@ + hex_digits((contract.contract_id) as nat, 16) + ")\n/// Plugins use this class to call host-provided functionality.\nclass "@
        + class + " {\npublic:\n    /// Factory method - creates caller from HostApi or nullopt if not found.\n    static std::optional<"@ + class
        + "> from_host(const HostApi* host, uint32_t min_version = 0) noexcept {\n        if (host == nullptr) {\n            return std::nullopt;\n        }\n        HostContractInstance instance = host->get_host_contract(host, 0x"@ + hex_digits((contract.contract_id) as nat, 16) + "ULL, min_version);\n        if (instance.data == nullptr) {\n            return std::nullopt;\n        }\n        const HostContractInterface* interface = host->resolve_host_contract_interface(host, 0x"@
        + hex_digits((contract.contract_id) as nat, 16) + "ULL, min_version);\n        if (interface == nullptr) {\n            return std::nullopt;\n        }\n        return "@ + class
        + "(interface, instance);\n    }\n\n    /// Check if caller is valid (interface and instance are non-null).\n    bool is_valid() const noexcept { return interface_ != nullptr && instance_.data != nullptr; }\n\n    /// Explicit bool conversion for validity check.\n    explicit operator bool() const noexcept { return interface_ != nullptr && instance_.data != nullptr; }\n\n"@;
    cpp_guest_host_methods(head, contract.functions@, class) + "private:\n    explicit "@ + class
        + "(const HostContractInterface* interface, HostContractInstance instance) noexcept\n        : interface_(interface), instance_(instance) {}\n\n    const HostContractInterface* interface_;\n    HostContractInstance instance_;\n};\n\n"@
}

/// Emit the guest-side caller class of a host contract.
#[verifier::rlimit(80)]
pub fn generate_cpp_guest_host_contract_caller(out: &mut String, contract: &ResolvedHostContract)
    ensures
        final(out)@ == cpp_guest_host_caller(old(out)@, *contract),
{
    let class_name: String = host_contract_name_to_cpp_caller(contract.name.as_str());
    let ghost class = class_name@;
    out.append("/// Guest caller for host contract `");
    out.append(contract.name.as_str());
    out.append("` (id=0x");
    push_hex16(out, contract.contract_id);
    out.append(")\n/// Plugins use this class to call host-provided functionality.\nclass ");
    out.append(class_name.as_str());
    out.append(" {\npublic:\n    /// Factory method - creates caller from HostApi or nullopt if not found.\n    static std::optional<");
    out.append(class_name.as_str());
    out.append("> from_host(const HostApi* host, uint32_t min_version = 0) noexcept {\n        if (host == nullptr) {\n            return std::nullopt;\n        }\n        HostContractInstance instance = host->get_host_contract(host, 0x");
    push_hex16(out, contract.contract_id);
    out.append("ULL, min_version);\n        if (instance.data == nullptr) {\n            return std::nullopt;\n        }\n        const HostContractInterface* interface = host->resolve_host_contract_interface(host, 0x");
    push_hex16(out, contract.contract_id);
    out.append("ULL, min_version);\n        if (interface == nullptr) {\n            return std::nullopt;\n        }\n        return ");
    out.append(class_name.as_str());
    out.append("(interface, instance);\n    }\n\n    /// Check if caller is valid (interface and instance are non-null).\n    bool is_valid() const noexcept { return interface_ != nullptr && instance_.data != nullptr; }\n\n    /// Explicit bool conversion for validity check.\n    explicit operator bool() const noexcept { return interface_ != nullptr && instance_.data != nullptr; }\n\n");
    let ghost s0 = out@;
    let n: usize = contract.functions.len();
    let mut i: usize = 0;
    while i < n
        invariant
            n == contract.functions@.len(),
            i <= n,
            class_name@ == cpp_host_caller(contract.name@),
            out@ == cpp_guest_host_methods(s0, contract.functions@.take(i as int), class_name@),
        decreases n - i,
    {
        generate_cpp_guest_host_contract_method(out, &contract.functions[i], class_name.as_str());
        assert(contract.functions@.take(i + 1).drop_last() =~= contract.functions@.take(i as int));
        i = i + 1;
    }
    assert(contract.functions@.take(n as int) =~= contract.functions@);
    out.append("private:\n    explicit ");
    out.append(class_name.as_str());
    out.append("(const HostContractInterface* interface, HostContractInstance instance) noexcept\n        : interface_(interface), instance_(instance) {}\n\n    const HostContractInterface* interface_;\n    HostContractInstance instance_;\n};\n\n");
}

/// The caller classes of every host contract.
pub open spec fn cpp_guest_host_callers(acc: Seq<char>, contracts: Seq<ResolvedHostContract>) -> Seq<char>
    decreases contracts.len(),
{
    if contracts.len() == 0 {
        acc
    } else {
        cpp_guest_host_caller(cpp_guest_host_callers(acc, contracts.drop_last()), contracts.last())
    }
}

/// A documented `constexpr` holding a host contract's id, named `<CLASS><suffix>`.
pub open spec fn cpp_host_ids(acc: Seq<char>, contracts: Seq<ResolvedHostContract>, caller: bool) -> Seq<char>
    decreases contracts.len(),
{
    if contracts.len() == 0 {
        acc
    } else {
        let c = contracts.last();
        let cname = if caller {
            upper_str(cpp_host_caller(c.name@)) + "_ID"@
        } else {
            upper_str(host_class_base(c.name@)) + "_CONTRACT_ID"@
        };
        cpp_host_ids(acc, contracts.drop_last(), caller) + "/// Contract ID constant for `"@ + c.name@ + "` (FNV-1a of \"host_contract:"@
            + c.name@ + "@"@ + dec_digits(c.version.major as nat) + "\")\n"@ + "constexpr uint64_t "@ + cname + " = 0x"@
            + hex_digits(c.contract_id as nat, 16) + "ULL;\n\n"@
    }
}

fn push_host_ids(out: &mut String, contracts: &Vec<ResolvedHostContract>, caller: bool)
    ensures
        final(out)@ == cpp_host_ids(old(out)@, contracts@, caller),
{
    let n: usize = contracts.len();
    let mut i: usize = 0;
    while i < n
        invariant
            n == contracts@.len(),
            i <= n,
            out@ == cpp_host_ids(old(out)@, contracts@.take(i as int), caller),
        decreases n - i,
    {
        let c: &ResolvedHostContract = &contracts[i];
        let mut cname: String = if caller {
            let cls: String = host_contract_name_to_cpp_caller(c.name.as_str());
            to_uppercase(cls.as_str())
        } else {
            let cls: String = host_contract_name_to_cpp_trait(c.name.as_str());
            to_uppercase(cls.as_str())
        };
        if caller {
            cname.append("_ID");
        } else {
            cname.append("_CONTRACT_ID");
        }
        out.append("/// Contract ID constant for `");
        out.append(c.name.as_str());
        out.append("` (FNV-1a of \"host_contract:");
        out.append(c.name.as_str());
        out.append("@");
        push_u32(out, c.version.major);
        out.append("\")\n");
        out.append("constexpr uint64_t ");
        out.append(cname.as_str());
        out.append(" = 0x");
        push_hex16(out, c.contract_id);
        out.append("ULL;\n\n");
        assert(contracts@.take(i + 1).drop_last() =~= contracts@.take(i as int));
        i = i + 1;
    }
    assert(contracts@.take(n as int) =~= contracts@);
}

/// `guest/host_contracts.hpp`: a caller class and an id per host contract.
pub open spec fn cpp_guest_host_contracts_hpp(ir: ValidatedIr) -> Seq<char> {
    cpp_host_ids(
        cpp_guest_host_callers(CPP_BUNDLE_HEADER@ + CPP_GUEST_HOST_CONTRACTS_HEAD@ + CPP_PLUGIN_NS@, ir.host_contracts@),
        ir.host_contracts@,
        true,
    ) + "}  // namespace polyplug_plugin\n"@
}

/// Generate `guest/host_contracts.hpp`.
pub fn generate_cpp_guest_host_contracts_file(ir: &ValidatedIr) -> (r: String)
    ensures
        r@ == cpp_guest_host_contracts_hpp(*ir),
{
    let mut out: String = String::new();
    out.append(CPP_BUNDLE_HEADER);
    out.append(CPP_GUEST_HOST_CONTRACTS_HEAD);
    out.append(CPP_PLUGIN_NS);
    let ghost s0 = out@;
    let n: usize = ir.host_contracts.len();
    let mut i: usize = 0;
    while i < n
        invariant
            n == ir.host_contracts@.len(),
            i <= n,
            out@ == cpp_guest_host_callers(s0, ir.host_contracts@.take(i as int)),
        decreases n - i,
    {
        generate_cpp_guest_host_contract_caller(&mut out, &ir.host_contracts[i]);
        assert(ir.host_contracts@.take(i + 1).drop_last() =~= ir.host_contracts@.take(i as int));
        i = i + 1;
    }
    assert(ir.host_contracts@.take(n as int) =~= ir.host_contracts@);
    push_host_ids(&mut out, &ir.host_contracts, true);
    out.append("}  // namespace polyplug_plugin\n");
    out
}

/// The abstract classes of every host contract.
pub open spec fn cpp_host_contract_traits(acc: Seq<char>, contracts: Seq<ResolvedHostContract>) -> Seq<char>
    decreases contracts.len(),
{
    if contracts.len() == 0 {
        acc
    } else {
        cpp_host_contract_trait(cpp_host_contract_traits(acc, contracts.drop_last()), contracts.last())
    }
}

/// `host/host_contracts.hpp`: an abstract class and an id per host contract.
pub open spec fn cpp_host_contracts_hpp(ir: ValidatedIr) -> Seq<char> {
    cpp_host_ids(
        cpp_host_contract_traits(CPP_API_HEADER@ + CPP_HOST_CONTRACTS_HEAD@ + CPP_HOST_NS@, ir.host_contracts@),
        ir.host_contracts@,
        false,
    ) + "}  // namespace polyplug_host\n"@
}

/// Generate `host/host_contracts.hpp`.
pub fn generate_cpp_host_contracts_file(ir: &ValidatedIr) -> (r: String)
    ensures
        r@ == cpp_host_contracts_hpp(*ir),
{
    let mut out: String = String::new();
    out.append(CPP_API_HEADER);
    out.append(CPP_HOST_CONTRACTS_HEAD);
    out.append(CPP_HOST_NS);
    let ghost s0 = out@;
    let n: usize = ir.host_contracts.len();
    let mut i: usize = 0;
    while i < n
        invariant
            n == ir.host_contracts@.len(),
            i <= n,
            out@ == cpp_host_contract_traits(s0, ir.host_contracts@.take(i as int)),
        decreases n - i,
    {
        generate_cpp_host_contract_trait(&mut out, &ir.host_contracts[i]);
        assert(ir.host_contracts@.take(i + 1).drop_last() =~= ir.host_contracts@.take(i as int));
        i = i + 1;
    }
    assert(ir.host_contracts@.take(n as int) =~= ir.host_contracts@);
    push_host_ids(&mut out, &ir.host_contracts, false);
    out.append("}  // namespace polyplug_host\n");
    out
}
/// The includes of `host/interface_factories.hpp`.
pub const CPP_FACTORIES_HEAD: &'static str = "#include \"host_contracts.hpp\"\n#include \"polyplug/abi.hpp\"\n#include <cstdint>\n#include <memory>\n\n";

// ─── Host interface factories ───────────────────────────────────────────────

/// `create_<contract>` with the contract name lower-cased and dots as underscores.
pub open spec fn cpp_factory_prefix(name: Seq<char>) -> Seq<char> {
    "create_"@ + lower_str(lower_snake(name))
}

/// A host thunk's name: `<contract>_<fn>_thunk`, the contract name lower-cased.
pub open spec fn cpp_thunk_name(contract_name: Seq<char>, func: ResolvedFunction) -> Seq<char> {
    lower_str(lower_snake(contract_name)) + "_"@ + func.name@ + "_thunk"@
}

fn thunk_name_of(contract_name: &str, func: &ResolvedFunction) -> (r: String)
    ensures
        r@ == cpp_thunk_name(contract_name@, *func),
{
    let s: String = dots_to_underscores(contract_name);
    let mut r: String = to_lowercase(s.as_str());
    r.append("_");
    r.append(func.name.as_str());
    r.append("_thunk");
    r
}

/// How a host thunk reads one packed argument.
pub open spec fn cpp_packed_read(p: ResolvedParam) -> Seq<char> {
    let n = p.name@;
    match p.ty {
        ResolvedTypeRef::AbiType(AbiBuiltin::StringView) => "            StringView "@ + n + " = packed->"@ + n + ";\n"@,
        ResolvedTypeRef::AbiType(AbiBuiltin::Buffer) => "            Buffer "@ + n + " = packed->"@ + n + "; (void)"@ + n + ";\n"@,
        _ => "            "@ + cpp_type(p.ty) + " "@ + n + " = packed->"@ + n + ";\n"@,
    }
}

/// The packed reads of `params`.
pub open spec fn cpp_packed_reads(params: Seq<ResolvedParam>) -> Seq<char>
    decreases params.len(),
{
    if params.len() == 0 {
        Seq::<char>::empty()
    } else {
        cpp_packed_reads(params.drop_last()) + cpp_packed_read(params.last())
    }
}

/// The fields of a host thunk's argument pack, one per line.
pub open spec fn cpp_pack_field_lines(params: Seq<ResolvedParam>) -> Seq<char>
    decreases params.len(),
{
    if params.len() == 0 {
        Seq::<char>::empty()
    } else {
        cpp_pack_field_lines(params.drop_last()) + "                "@ + cpp_type(params.last().ty) + " "@ + params.last().name@ + ";\n"@
    }
}

fn push_pack_field_lines(out: &mut String, params: &Vec<ResolvedParam>)
    ensures
        final(out)@ == old(out)@ + cpp_pack_field_lines(params@),
{
    let n: usize = params.len();
    let mut i: usize = 0;
    while i < n
        invariant
            n == params@.len(),
            i <= n,
            out@ == old(out)@ + cpp_pack_field_lines(params@.take(i as int)),
        decreases n - i,
    {
        let t: String = cpp_host_abi_type_name(&params[i].ty);
        out.append("                ");
        out.append(t.as_str());
        out.append(" ");
        out.append(params[i].name.as_str());
        out.append(";
");
        assert(params@.take(i + 1).drop_last() =~= params@.take(i as int));
        i = i + 1;
    }
    assert(params@.take(n as int) =~= params@);
}

fn push_packed_read(out: &mut String, p: &ResolvedParam)
    ensures
        final(out)@ == old(out)@ + cpp_packed_read(*p),
{
    let name: &str = p.name.as_str();
    match &p.ty {
        ResolvedTypeRef::AbiType(AbiBuiltin::StringView) => {
            out.append("            StringView ");
            out.append(name);
            out.append(" = packed->");
            out.append(name);
            out.append(";
");
        },
        ResolvedTypeRef::AbiType(AbiBuiltin::Buffer) => {
            out.append("            Buffer ");
            out.append(name);
            out.append(" = packed->");
            out.append(name);
            out.append("; (void)");
            out.append(name);
            out.append(";
");
        },
        _ => {
            let t: String = cpp_host_abi_type_name(&p.ty);
            out.append("            ");
            out.append(t.as_str());
            out.append(" ");
            out.append(name);
            out.append(" = packed->");
            out.append(name);
            out.append(";
");
        },
    }
}

fn push_packed_reads(out: &mut String, params: &Vec<ResolvedParam>)
    ensures
        final(out)@ == old(out)@ + cpp_packed_reads(params@),
{
    let n: usize = params.len();
    let mut i: usize = 0;
    while i < n
        invariant
            n == params@.len(),
            i <= n,
            out@ == old(out)@ + cpp_packed_reads(params@.take(i as int)),
        decreases n - i,
    {
        push_packed_read(out, &params[i]);
        assert(params@.take(i + 1).drop_last() =~= params@.take(i as int));
        i = i + 1;
    }
    assert(params@.take(n as int) =~= params@);
}

/// A host thunk's argument extraction: a single argument read from `args`,
/// several through the pack struct `<FN>Args`.
pub open spec fn cpp_thunk_args(func: ResolvedFunction) -> Seq<char> {
    let ps = func.params@;
    if ps.len() == 1 {
        let p = ps[0];
        let n = p.name@;
        let t = cpp_type(p.ty);
        match p.ty {
            ResolvedTypeRef::AbiType(AbiBuiltin::StringView) => "            StringView "@ + n + " = *static_cast<const StringView*>(args);\n"@,
            ResolvedTypeRef::AbiType(AbiBuiltin::Buffer) => "            Buffer "@ + n + "_buf = *static_cast<const Buffer*>(args);\n"@
                + "            (void)"@ + n + "_buf;  // Buffer handling depends on use case\n"@,
            ResolvedTypeRef::UserDefined(_) => "            const "@ + t + "& "@ + n + " = *static_cast<const "@ + t + "*>(args);\n"@,
            _ => "            "@ + t + " "@ + n + " = *static_cast<const "@ + t + "*>(args);\n"@,
        }
    } else {
        let pack = upper_str(func.name@) + "Args"@;
        "            struct "@ + pack + " {\n"@ + cpp_pack_field_lines(ps) + "            };\n"@ + "            const "@ + pack
            + "* packed = static_cast<const "@ + pack + "*>(args);\n"@ + cpp_packed_reads(ps)
    }
}

/// Emit a host thunk's argument extraction.
pub fn generate_cpp_host_thunk_args(out: &mut String, func: &ResolvedFunction)
    ensures
        final(out)@ == old(out)@ + cpp_thunk_args(*func),
{
    let n: usize = func.params.len();
    if n == 1 {
        let p: &ResolvedParam = &func.params[0];
        let name: &str = p.name.as_str();
        let t: String = cpp_host_abi_type_name(&p.ty);
        match &p.ty {
            ResolvedTypeRef::AbiType(AbiBuiltin::StringView) => {
                out.append("            StringView ");
                out.append(name);
                out.append(" = *static_cast<const StringView*>(args);\n");
            },
            ResolvedTypeRef::AbiType(AbiBuiltin::Buffer) => {
                out.append("            Buffer ");
                out.append(name);
                out.append("_buf = *static_cast<const Buffer*>(args);\n");
                out.append("            (void)");
                out.append(name);
                out.append("_buf;  // Buffer handling depends on use case\n");
            },
            ResolvedTypeRef::UserDefined(_) => {
                out.append("            const ");
                out.append(t.as_str());
                out.append("& ");
                out.append(name);
                out.append(" = *static_cast<const ");
                out.append(t.as_str());
                out.append("*>(args);\n");
            },
            _ => {
                out.append("            ");
                out.append(t.as_str());
                out.append(" ");
                out.append(name);
                out.append(" = *static_cast<const ");
                out.append(t.as_str());
                out.append("*>(args);\n");
            },
        }
    } else {
        let mut pack: String = to_uppercase(func.name.as_str());
        pack.append("Args");
        out.append("            struct ");
        out.append(pack.as_str());
        out.append(" {
");
        push_pack_field_lines(out, &func.params);
        out.append("            };
");
        out.append("            const ");
        out.append(pack.as_str());
        out.append("* packed = static_cast<const ");
        out.append(pack.as_str());
        out.append("*>(args);
");
        push_packed_reads(out, &func.params);
    }
}

/// The call of the implementation inside a host thunk.
pub open spec fn cpp_thunk_call(func: ResolvedFunction, has_return: bool) -> Seq<char> {
    if has_return {
        "            "@ + cpp_ret(func.returns) + " result = impl->"@ + func.name@ + "("@ + join_pieces(func.params@, 5) + ");\n"@
    } else {
        "            impl->"@ + func.name@ + "("@ + join_pieces(func.params@, 5) + ");\n"@
    }
}

/// Emit the call of the implementation inside a host thunk.
pub fn generate_cpp_host_thunk_call(out: &mut String, func: &ResolvedFunction, has_return: bool)
    ensures
        final(out)@ == old(out)@ + cpp_thunk_call(*func, has_return),
{
    if has_return {
        let ret: String = cpp_ret_name(&func.returns);
        out.append("            ");
        out.append(ret.as_str());
        out.append(" result = impl->");
    } else {
        out.append("            impl->");
    }
    out.append(func.name.as_str());
    out.append("(");
    push_joined(out, &func.params, 5);
    out.append(");\n");
}

/// A host thunk: a captureless lambda that recovers the implementation from
/// the instance, extracts the arguments, calls it and writes the result.
pub open spec fn cpp_host_thunk(acc: Seq<char>, func: ResolvedFunction, contract_name: Seq<char>, trait_name: Seq<char>) -> Seq<char> {
    let thunk = cpp_thunk_name(contract_name, func);
    let has_return = func.returns is Some;
    let head = acc + "    static constexpr auto "@ + thunk
        + " = +[](HostContractInstance instance, const void* args, void* out) noexcept -> AbiError {\n        auto* impl = static_cast<"@ + trait_name + "*>(instance.data);\n        if (impl == nullptr) {\n            return AbiError{static_cast<uint32_t>(AbiErrorCode::Panic), StringView{nullptr, 0}};\n        }\n        try {\n"@;
    let args = if func.params@.len() > 0 {
        cpp_thunk_args(func)
    } else {
        "            (void)args;\n"@
    };
    let res = if has_return {
        "            *static_cast<"@ + cpp_ret(func.returns) + "*>(out) = result;\n"@
    } else {
        "            (void)out;\n"@
    };
    head + args + cpp_thunk_call(func, has_return) + res + "            return AbiError{static_cast<uint32_t>(AbiErrorCode::Ok), StringView{nullptr, 0}};\n        } catch (...) {\n            return AbiError{static_cast<uint32_t>(AbiErrorCode::Panic), StringView{nullptr, 0}};\n        }\n    };\n\n"@
}

/// Emit a host thunk for one host contract function.
pub fn generate_cpp_host_thunk(out: &mut String, func: &ResolvedFunction, contract_name: &str, trait_name: &str)
    ensures
        final(out)@ == cpp_host_thunk(old(out)@, *func, contract_name@, trait_name@),
{
    let thunk_name: String = thunk_name_of(contract_name, func);
    let has_return: bool = func.returns.is_some();
    out.append("    static constexpr auto ");
    out.append(thunk_name.as_str());
    out.append(" = +[](HostContractInstance instance, const void* args, void* out) noexcept -> AbiError {\n        auto* impl = static_cast<");
    out.append(trait_name);
    out.append("*>(instance.data);\n        if (impl == nullptr) {\n            return AbiError{static_cast<uint32_t>(AbiErrorCode::Panic), StringView{nullptr, 0}};\n        }\n        try {\n");
    if func.params.len() > 0 {
        generate_cpp_host_thunk_args(out, func);
    } else {
        out.append("            (void)args;\n");
    }
    generate_cpp_host_thunk_call(out, func, has_return);
    if has_return {
        let ret: String = cpp_ret_name(&func.returns);
        out.append("            *static_cast<");
        out.append(ret.as_str());
        out.append("*>(out) = result;\n");
    } else {
        out.append("            (void)out;\n");
    }
    out.append("            return AbiError{static_cast<uint32_t>(AbiErrorCode::Ok), StringView{nullptr, 0}};\n        } catch (...) {\n            return AbiError{static_cast<uint32_t>(AbiErrorCode::Panic), StringView{nullptr, 0}};\n        }\n    };\n\n");
}

/// The thunks of every function.
pub open spec fn cpp_host_thunks(acc: Seq<char>, funcs: Seq<ResolvedFunction>, contract_name: Seq<char>, trait_name: Seq<char>) -> Seq<char>
    decreases funcs.len(),
{
    if funcs.len() == 0 {
        acc
    } else {
        cpp_host_thunk(cpp_host_thunks(acc, funcs.drop_last(), contract_name, trait_name), funcs.last(), contract_name, trait_name)
    }
}

/// `        reinterpret_cast<void*>(<thunk>),` for every function.
pub open spec fn cpp_thunk_table(acc: Seq<char>, funcs: Seq<ResolvedFunction>, contract_name: Seq<char>) -> Seq<char>
    decreases funcs.len(),
{
    if funcs.len() == 0 {
        acc
    } else {
        cpp_thunk_table(acc, funcs.drop_last(), contract_name) + "        reinterpret_cast<void*>("@ + cpp_thunk_name(
            contract_name,
            funcs.last(),
        ) + "),\n"@
    }
}

/// The native and VM interface factories of a host contract.
pub open spec fn cpp_interface_factory(acc: Seq<char>, contract: ResolvedHostContract) -> Seq<char> {
    let trait_name = host_class_base(contract.name@);
    let head = acc + "/// Create a host contract interface for `"@ + contract.name@
        + "` with NATIVE dispatch.\n///\n/// Takes ownership of the implementation and creates a 'static interface.\n/// The implementation must inherit from the abstract class.\n///\n/// # Memory\n/// The returned interface pointer is valid for the lifetime of the program.\n/// The implementation unique_ptr is released and managed internally.\ntemplate<typename T>\nconst HostContractInterface* "@ + cpp_factory_prefix(contract.name@) + "_interface"@ + "(std::unique_ptr<T> impl) noexcept {\n    T* impl_ptr = impl.release();\n\n"@;
    let thunks = cpp_host_thunks(head, contract.functions@, contract.name@, trait_name);
    let table = cpp_thunk_table(thunks + "    static void* const FUNCTIONS["@ + dec_digits((contract.functions@.len()) as nat)
        + "] = {\n"@, contract.functions@, contract.name@);
    table + "    };\n\n    // create_instance stub - host owns the singleton instance lifecycle\n    static constexpr HostContractInterface_create_instance_fn create_instance_stub =\n        +[](const HostContractInterface* self, const void* /*args*/) noexcept -> HostContractInstance {\n        // Return the registrant-owned user_data as the instance; the thunks\n        // recover the implementation from it (no static state).\n        return HostContractInstance{self->user_data};\n    };\n\n    // destroy_instance stub - host owns the singleton instance lifecycle\n    static constexpr HostContractInterface_destroy_instance_fn destroy_instance_stub =\n        +[](const HostContractInterface* /*this*/, HostContractInstance /*instance*/) noexcept -> void {\n"@ + (if contract.singleton { "        // Singleton: no-op, the implementation lives for program lifetime\n"@ } else { "        // Multi-instance: not supported in host-side factory, use custom factory\n"@ })
        + "    };\n\n    static HostContractInterface s_interface = {\n        0x"@ + hex_digits((contract.contract_id) as nat, 16) + "ULL,  // contract_id\n        Version{"@
        + dec_digits((contract.version.major) as nat) + "U, "@ + dec_digits((contract.version.minor) as nat)
        + "U, "@ + dec_digits((contract.version.patch) as nat) + "U},  // contract_version\n        "@
        + crate::generators::manifest::bool_text(contract.singleton) + ",  // singleton\n        DispatchType::Native,  // dispatch_type\n        nullptr,  // runtime (set by polyplug during registration)\n        nullptr,  // user_data (set below to the registrant-owned impl)\n        create_instance_stub,  // create_instance\n        destroy_instance_stub,  // destroy_instance\n        DispatchMechanisms{ .native = NativeDispatch{\n            "@ + dec_digits((contract.functions@.len()) as nat)
        + "U,  // function_count\n            FUNCTIONS,  // functions\n        } },  // dispatch.native\n    };  // dispatch\n\n    // Route the implementation through user_data; create_instance reads it via `this`.\n    s_interface.user_data = static_cast<void*>(impl_ptr);\n    return &s_interface;\n}\n\n/// Create a host contract interface for `"@ + contract.name@ + "` with VM dispatch.\n///\n/// Used when the host implementation is in a VM language (Python, Lua, JS).\n///\n/// # Arguments\n/// * `loader_data` - Opaque pointer to VM-specific data\n/// * `dispatch_fn` - Function to call for each contract function\n///\n/// # Memory\n/// The returned interface pointer is valid for the lifetime of the program.\nconst HostContractInterface* "@
        + cpp_factory_prefix(contract.name@) + "_interface_vm"@ + "(\n    void* loader_data,\n    VmDispatch_call_fn dispatch_fn\n) noexcept {\n    // create_instance stub - VM loader owns instance lifecycle\n    static constexpr HostContractInterface_create_instance_fn vm_create_instance_stub =\n        +[](const HostContractInterface* /*this*/, const void* /*args*/) noexcept -> HostContractInstance {\n        // VM dispatch: instance managed by VM loader, return placeholder\n        return HostContractInstance{nullptr};\n    };\n\n    // destroy_instance stub - VM loader owns instance lifecycle\n    static constexpr HostContractInterface_destroy_instance_fn vm_destroy_instance_stub =\n        +[](const HostContractInterface* /*this*/, HostContractInstance /*instance*/) noexcept -> void {\n        // VM dispatch: instance managed by VM loader, no-op here\n    };\n\n    static HostContractInterface s_interface = {\n        0x"@ + hex_digits((contract.contract_id) as nat, 16)
        + "ULL,  // contract_id\n        Version{"@ + dec_digits((contract.version.major) as nat) + "U, "@
        + dec_digits((contract.version.minor) as nat) + "U, "@ + dec_digits((contract.version.patch) as nat)
        + "U},  // contract_version\n        "@ + crate::generators::manifest::bool_text(contract.singleton) + ",  // singleton\n        DispatchType::VirtualMachine,  // dispatch_type\n        nullptr,  // runtime (set by polyplug during registration)\n        loader_data,  // user_data (registrant-owned VM bridge data)\n        vm_create_instance_stub,  // create_instance\n        vm_destroy_instance_stub,  // destroy_instance\n        DispatchMechanisms{ .vm = VmDispatch{\n            dispatch_fn,  // call\n            VmLoaderData{loader_data},  // loader_data\n        } },  // dispatch.vm\n    };  // dispatch\n    return &s_interface;\n}\n\n"@
}

/// Emit the native and VM interface factories of a host contract.
pub fn generate_cpp_host_interface_factory(out: &mut String, contract: &ResolvedHostContract)
    ensures
        final(out)@ == cpp_interface_factory(old(out)@, *contract),
{
    let trait_name: String = host_contract_name_to_cpp_trait(contract.name.as_str());
    let s: String = dots_to_underscores(contract.name.as_str());
    let low: String = to_lowercase(s.as_str());
    let mut factory_name: String = String::new();
    factory_name.append("create_");
    factory_name.append(low.as_str());
    let mut factory_vm_name: String = String::new();
    factory_vm_name.append(factory_name.as_str());
    factory_name.append("_interface");
    factory_vm_name.append("_interface_vm");
    out.append("/// Create a host contract interface for `");
    out.append(contract.name.as_str());
    out.append("` with NATIVE dispatch.\n///\n/// Takes ownership of the implementation and creates a 'static interface.\n/// The implementation must inherit from the abstract class.\n///\n/// # Memory\n/// The returned interface pointer is valid for the lifetime of the program.\n/// The implementation unique_ptr is released and managed internally.\ntemplate<typename T>\nconst HostContractInterface* ");
    out.append(factory_name.as_str());
    out.append("(std::unique_ptr<T> impl) noexcept {\n    T* impl_ptr = impl.release();\n\n");
    assert(factory_name@ == cpp_factory_prefix(contract.name@) + "_interface"@);
    assert(factory_vm_name@ == cpp_factory_prefix(contract.name@) + "_interface_vm"@);
    let ghost s0 = out@;
    assert(s0 == old(out)@ + "/// Create a host contract interface for `"@ + contract.name@
        + "` with NATIVE dispatch.\n///\n/// Takes ownership of the implementation and creates a 'static interface.\n/// The implementation must inherit from the abstract class.\n///\n/// # Memory\n/// The returned interface pointer is valid for the lifetime of the program.\n/// The implementation unique_ptr is released and managed internally.\ntemplate<typename T>\nconst HostContractInterface* "@ + cpp_factory_prefix(contract.name@) + "_interface"@ + "(std::unique_ptr<T> impl) noexcept {\n    T* impl_ptr = impl.release();\n\n"@);
    let n: usize = contract.functions.len();
    let mut i: usize = 0;
    while i < n
        invariant
            n == contract.functions@.len(),
            i <= n,
            trait_name@ == host_class_base(contract.name@),
            out@ == cpp_host_thunks(s0, contract.functions@.take(i as int), contract.name@, trait_name@),
        decreases n - i,
    {
        generate_cpp_host_thunk(out, &contract.functions[i], contract.name.as_str(), trait_name.as_str());
        assert(contract.functions@.take(i + 1).drop_last() =~= contract.functions@.take(i as int));
        i = i + 1;
    }
    assert(contract.functions@.take(n as int) =~= contract.functions@);
    out.append("    static void* const FUNCTIONS[");
    push_usize(out, contract.functions.len());
    out.append("] = {\n");
    let ghost s1 = out@;
    assert(s1 == cpp_host_thunks(s0, contract.functions@, contract.name@, trait_name@) + "    static void* const FUNCTIONS["@ + dec_digits((contract.functions@.len()) as nat)
        + "] = {\n"@);
    let mut j: usize = 0;
    while j < n
        invariant
            n == contract.functions@.len(),
            j <= n,
            out@ == cpp_thunk_table(s1, contract.functions@.take(j as int), contract.name@),
        decreases n - j,
    {
        let t: String = thunk_name_of(contract.name.as_str(), &contract.functions[j]);
        out.append("        reinterpret_cast<void*>(");
        out.append(t.as_str());
        out.append("),\n");
        assert(contract.functions@.take(j + 1).drop_last() =~= contract.functions@.take(j as int));
        j = j + 1;
    }
    assert(contract.functions@.take(n as int) =~= contract.functions@);
    out.append("    };\n\n    // create_instance stub - host owns the singleton instance lifecycle\n    static constexpr HostContractInterface_create_instance_fn create_instance_stub =\n        +[](const HostContractInterface* self, const void* /*args*/) noexcept -> HostContractInstance {\n        // Return the registrant-owned user_data as the instance; the thunks\n        // recover the implementation from it (no static state).\n        return HostContractInstance{self->user_data};\n    };\n\n    // destroy_instance stub - host owns the singleton instance lifecycle\n    static constexpr HostContractInterface_destroy_instance_fn destroy_instance_stub =\n        +[](const HostContractInterface* /*this*/, HostContractInstance /*instance*/) noexcept -> void {\n");
    if contract.singleton {
        out.append("        // Singleton: no-op, the implementation lives for program lifetime\n");
    } else {
        out.append("        // Multi-instance: not supported in host-side factory, use custom factory\n");
    }
    out.append("    };\n\n    static HostContractInterface s_interface = {\n        0x");
    push_hex16(out, contract.contract_id);
    out.append("ULL,  // contract_id\n        Version{");
    push_u32(out, contract.version.major);
    out.append("U, ");
    push_u32(out, contract.version.minor);
    out.append("U, ");
    push_u32(out, contract.version.patch);
    out.append("U},  // contract_version\n        ");
    if contract.singleton { out.append("true"); } else { out.append("false"); }
    out.append(",  // singleton\n        DispatchType::Native,  // dispatch_type\n        nullptr,  // runtime (set by polyplug during registration)\n        nullptr,  // user_data (set below to the registrant-owned impl)\n        create_instance_stub,  // create_instance\n        destroy_instance_stub,  // destroy_instance\n        DispatchMechanisms{ .native = NativeDispatch{\n            ");
    push_usize(out, contract.functions.len());
    out.append("U,  // function_count\n            FUNCTIONS,  // functions\n        } },  // dispatch.native\n    };  // dispatch\n\n    // Route the implementation through user_data; create_instance reads it via `this`.\n    s_interface.user_data = static_cast<void*>(impl_ptr);\n    return &s_interface;\n}\n\n/// Create a host contract interface for `");
    out.append(contract.name.as_str());
    out.append("` with VM dispatch.\n///\n/// Used when the host implementation is in a VM language (Python, Lua, JS).\n///\n/// # Arguments\n/// * `loader_data` - Opaque pointer to VM-specific data\n/// * `dispatch_fn` - Function to call for each contract function\n///\n/// # Memory\n/// The returned interface pointer is valid for the lifetime of the program.\nconst HostContractInterface* ");
    out.append(factory_vm_name.as_str());
    out.append("(\n    void* loader_data,\n    VmDispatch_call_fn dispatch_fn\n) noexcept {\n    // create_instance stub - VM loader owns instance lifecycle\n    static constexpr HostContractInterface_create_instance_fn vm_create_instance_stub =\n        +[](const HostContractInterface* /*this*/, const void* /*args*/) noexcept -> HostContractInstance {\n        // VM dispatch: instance managed by VM loader, return placeholder\n        return HostContractInstance{nullptr};\n    };\n\n    // destroy_instance stub - VM loader owns instance lifecycle\n    static constexpr HostContractInterface_destroy_instance_fn vm_destroy_instance_stub =\n        +[](const HostContractInterface* /*this*/, HostContractInstance /*instance*/) noexcept -> void {\n        // VM dispatch: instance managed by VM loader, no-op here\n    };\n\n    static HostContractInterface s_interface = {\n        0x");
    push_hex16(out, contract.contract_id);
    out.append("ULL,  // contract_id\n        Version{");
    push_u32(out, contract.version.major);
    out.append("U, ");
    push_u32(out, contract.version.minor);
    out.append("U, ");
    push_u32(out, contract.version.patch);
    out.append("U},  // contract_version\n        ");
    if contract.singleton { out.append("true"); } else { out.append("false"); }
    out.append(",  // singleton\n        DispatchType::VirtualMachine,  // dispatch_type\n        nullptr,  // runtime (set by polyplug during registration)\n        loader_data,  // user_data (registrant-owned VM bridge data)\n        vm_create_instance_stub,  // create_instance\n        vm_destroy_instance_stub,  // destroy_instance\n        DispatchMechanisms{ .vm = VmDispatch{\n            dispatch_fn,  // call\n            VmLoaderData{loader_data},  // loader_data\n        } },  // dispatch.vm\n    };  // dispatch\n    return &s_interface;\n}\n\n");
}

/// The factories of every host contract.
pub open spec fn cpp_interface_factories(acc: Seq<char>, contracts: Seq<ResolvedHostContract>) -> Seq<char>
    decreases contracts.len(),
{
    if contracts.len() == 0 {
        acc
    } else {
        cpp_interface_factory(cpp_interface_factories(acc, contracts.drop_last()), contracts.last())
    }
}

/// `host/interface_factories.hpp`: the interface factories of every host contract.
pub open spec fn cpp_interface_factories_hpp(ir: ValidatedIr) -> Seq<char> {
    cpp_interface_factories(CPP_API_HEADER@ + CPP_FACTORIES_HEAD@ + CPP_HOST_NS@, ir.host_contracts@) + "}  // namespace polyplug_host\n"@
}

/// Generate `host/interface_factories.hpp`.
pub fn generate_cpp_host_interface_factories_file(ir: &ValidatedIr) -> (r: String)
    ensures
        r@ == cpp_interface_factories_hpp(*ir),
{
    let mut out: String = String::new();
    out.append(CPP_API_HEADER);
    out.append(CPP_FACTORIES_HEAD);
    out.append(CPP_HOST_NS);
    let ghost s0 = out@;
    let n: usize = ir.host_contracts.len();
    let mut i: usize = 0;
    while i < n
        invariant
            n == ir.host_contracts@.len(),
            i <= n,
            out@ == cpp_interface_factories(s0, ir.host_contracts@.take(i as int)),
        decreases n - i,
    {
        generate_cpp_host_interface_factory(&mut out, &ir.host_contracts[i]);
        assert(ir.host_contracts@.take(i + 1).drop_last() =~= ir.host_contracts@.take(i as int));
        i = i + 1;
    }
    assert(ir.host_contracts@.take(n as int) =~= ir.host_contracts@);
    out.append("}  // namespace polyplug_host\n");
    out
}
/// The includes and namespace opening of `guest/peer_callers.hpp`.
pub const CPP_PEER_HEAD: &'static str = "#include \"types.hpp\"\n#include \"polyplug/guest.hpp\"\n#include \"polyplug/abi.hpp\"\n#include <array>\n#include <cstdint>\n#include <memory>\n#include <optional>\n\n";

// ─── Peer callers ───────────────────────────────────────────────────────────

/// One method of a peer caller: dispatch through the host's `call_guest_method`.
pub open spec fn cpp_peer_fn(acc: Seq<char>, class: Seq<char>, func: ResolvedFunction) -> Seq<char> {
    acc + "    /// Call peer function `"@ + func.name@
        + "` (function_id="@ + dec_digits((func.function_id) as nat) + ") via host-mediated dispatch.\n"@
        + (if fn_arena(func) { "    /// Returns a value borrowing this caller's arena; it stays valid until\n    /// the next arena-backed call on this caller.\n"@ } else { Seq::<char>::empty() }) + "    "@ + cpp_ret(func.returns)
        + " "@ + func.name@ + "("@
        + join_pieces(func.params@, 1) + ")"@ + (if fn_arena(func) { Seq::<char>::empty() } else { " const"@ })
        + " {\n"@ + "        if (iface_ == nullptr) {\n"@ + (if func.returns is Some { "            return "@ + cpp_ret(func.returns) + "{};\n"@ } else { "            return;\n"@ })
        + "        }\n"@ + (if fn_arena(func) { "        // Reset the arena at call start: frees the previous call's overflow\n        // blocks and rewinds the primary region, invalidating prior views.\n        polyplug_arena_reset(&arena_);\n"@ } else { Seq::<char>::empty() }) + cpp_args_ptr(class, func)
        + (if is_void_ret(func.returns) { "        void* out_ptr = nullptr;\n"@ } else { "        "@ + cpp_ret(func.returns) + " out{};\n        void* out_ptr = &out;\n"@ }) + "        // SAFETY: host_ is non-null (set in resolve()); iface_ and instance_\n        // are valid for the lifetime of this wrapper. args_ptr/out_ptr match\n        // the ABI contract for this function.\n        AbiError err = host_->call_guest_method(host_, instance_, "@ + dec_digits((func.function_id) as nat)
        + "U, args_ptr, out_ptr, "@ + (if fn_arena(func) { "&arena_"@ } else { "nullptr"@ }) + ");\n        if (err.code != static_cast<uint32_t>(AbiErrorCode::Ok)) {\n"@
        + (if func.returns is Some { "            return "@ + cpp_ret(func.returns) + "{};\n"@ } else { "            return;\n"@ }) + "        }\n"@ + (if !is_void_ret(func.returns) { "        return out;\n"@ } else { Seq::<char>::empty() })
        + "    }\n\n"@
}

/// Emit one method of a peer caller.
#[verifier::rlimit(80)]
pub fn generate_cpp_peer_fn_caller(out: &mut String, class_name: &str, func: &ResolvedFunction)
    ensures
        final(out)@ == cpp_peer_fn(old(out)@, class_name@, *func),
{
    let ghost class = class_name@;
    let ret: String = cpp_ret_name(&func.returns);
    let na: bool = fn_needs_arena(func);
    let has_ret: bool = func.returns.is_some();
    let void_ret: bool = is_void_return(&func.returns);
    let arena_arg: &str = if na {
        "&arena_"
    } else {
        "nullptr"
    };
    out.append("    /// Call peer function `");
    out.append(func.name.as_str());
    out.append("` (function_id=");
    push_u32(out, func.function_id);
    out.append(") via host-mediated dispatch.\n");
    if na {
        out.append("    /// Returns a value borrowing this caller's arena; it stays valid until\n    /// the next arena-backed call on this caller.\n");
    }
    out.append("    ");
    out.append(ret.as_str());
    out.append(" ");
    out.append(func.name.as_str());
    out.append("(");
    push_joined(out, &func.params, 1);
    out.append(")");
    if !na { out.append(" const"); }
    out.append(" {\n");
    out.append("        if (iface_ == nullptr) {\n");
    if has_ret {
        out.append("            return ");
        out.append(ret.as_str());
        out.append("{};\n");
    } else {
        out.append("            return;\n");
    }
    out.append("        }\n");
    if na {
        out.append("        // Reset the arena at call start: frees the previous call's overflow\n        // blocks and rewinds the primary region, invalidating prior views.\n        polyplug_arena_reset(&arena_);\n");
    }
    let args_code: String = build_args_ptr_code(class_name, func);
    out.append(args_code.as_str());
    if void_ret {
        out.append("        void* out_ptr = nullptr;\n");
    } else {
        out.append("        ");
        out.append(ret.as_str());
        out.append(" out{};\n        void* out_ptr = &out;\n");
    }
    out.append("        // SAFETY: host_ is non-null (set in resolve()); iface_ and instance_\n        // are valid for the lifetime of this wrapper. args_ptr/out_ptr match\n        // the ABI contract for this function.\n        AbiError err = host_->call_guest_method(host_, instance_, ");
    push_u32(out, func.function_id);
    out.append("U, args_ptr, out_ptr, ");
    out.append(arena_arg);
    out.append(");\n        if (err.code != static_cast<uint32_t>(AbiErrorCode::Ok)) {\n");
    if has_ret {
        out.append("            return ");
        out.append(ret.as_str());
        out.append("{};\n");
    } else {
        out.append("            return;\n");
    }
    out.append("        }\n");
    if !void_ret {
        out.append("        return out;\n");
    }
    out.append("    }\n\n");
}

/// The methods of a peer caller.
pub open spec fn cpp_peer_fns(acc: Seq<char>, class: Seq<char>, funcs: Seq<ResolvedFunction>) -> Seq<char>
    decreases funcs.len(),
{
    if funcs.len() == 0 {
        acc
    } else {
        cpp_peer_fn(cpp_peer_fns(acc, class, funcs.drop_last()), class, funcs.last())
    }
}

/// The head of a peer caller class, up to its methods.
pub open spec fn cpp_peer_head(acc: Seq<char>, contract: ResolvedContract, min_version: u32) -> Seq<char> {
    let class = cpp_class(contract.name@) + "Peer"@;
    let na = contract_arena(contract);
    acc + "/// Peer caller for guest contract `"@ + contract.name@
        + "` (id=0x"@ + hex_digits((contract.contract_id) as nat, 16) + ")\n///\n/// Dispatches to the peer through the host-mediated `call_guest_method` path.\n/// Use `resolve()` to obtain an instance; returns `std::nullopt` when the\n/// contract is not registered or the host interface is unavailable.\n"@
        + (if na { "///\n/// # Call-arena lifetime\n///\n/// Methods returning variable-size values (`StringView`, `Buffer`, or structs\n/// that may embed one) are non-const and reset this caller's arena at the start\n/// of the call. Any view returned by such a method borrows arena memory and is\n/// valid only until the next arena-backed call on the same caller.\n"@ } else { Seq::<char>::empty() }) + "class "@ + class
        + " {\npublic:\n    /// Discover and resolve the peer contract through the host.\n    ///\n    /// Returns `std::nullopt` if the host interface is unavailable, the contract\n    /// is not registered, or `resolve_guest_contract` returns null.\n    static std::optional<"@ + class + "> resolve() noexcept {\n        const HostApi* host = polyplug::get_host_interface();\n        if (host == nullptr) {\n            return std::nullopt;\n        }\n        GuestContractHandle handle = host->find_guest_contract(host, 0x"@
        + hex_digits((contract.contract_id) as nat, 16) + "ULL, "@ + dec_digits((min_version) as nat)
        + "U);\n        // Pass the handle straight to resolve_guest_contract; it rejects\n        // stale/invalid handles and returns nullptr — do not inspect fields.\n        const GuestContractInterface* iface = host->resolve_guest_contract(host, handle);\n        if (iface == nullptr) {\n            return std::nullopt;\n        }\n        // A null `instance.data` is valid: stateless contracts return a null\n        // handle from `create_instance` and use it as an opaque dispatch token.\n        GuestContractInstance instance = iface->create_instance(host, nullptr);\n        // Stamp the peer contract id so `host->call_guest_method` routes by it\n        // even when a stateless peer's create_instance returns a null (null-id)\n        // handle. The host-mediated path keys routing on contract_id.\n        instance.contract_id = 0x"@ + hex_digits((contract.contract_id) as nat, 16) + "ULL;\n        return "@
        + class + "(iface, instance, host);\n    }\n\n    /// Destructor - calls `destroy_instance` to clean up.\n    ~"@ + class
        + "() noexcept {\n"@ + (if na { "        // Free any overflow blocks the arena still holds before destruction.\n        // arena_buf_ is null only on a moved-from caller.\n        if (arena_buf_) {\n            polyplug_arena_reset(&arena_);\n        }\n"@ } else { Seq::<char>::empty() }) + "        // SAFETY: instance was created by create_instance on the resolved interface.\n        // We guard on instance.data to skip the call for stateless (null-data) contracts.\n        if (instance_.data != nullptr) {\n            iface_->destroy_instance(host_, instance_);\n            instance_.data = nullptr;  // Prevent reuse after cleanup.\n        }\n    }\n\n    // Move-only (instance handles are unique)\n    "@
        + class + "("@ + class
        + "&& other) noexcept\n        : iface_(other.iface_),\n          instance_(other.instance_),\n"@ + (if na { "          host_(other.host_),\n          arena_buf_(std::move(other.arena_buf_)),\n          arena_(other.arena_) {\n"@ } else { "          host_(other.host_) {\n"@ }) + "        other.instance_.data = nullptr;  // Prevent double-destroy.\n    }\n    "@
        + class + "& operator=("@ + class
        + "&& other) noexcept {\n        if (this != &other) {\n"@ + (if na { "            if (arena_buf_) {\n                polyplug_arena_reset(&arena_);\n            }\n"@ } else { Seq::<char>::empty() }) + "            if (instance_.data != nullptr) {\n                iface_->destroy_instance(host_, instance_);\n            }\n            iface_ = other.iface_; instance_ = other.instance_; host_ = other.host_; other.instance_.data = nullptr;\n"@
        + (if na { "            arena_buf_ = std::move(other.arena_buf_); arena_ = other.arena_;\n"@ } else { Seq::<char>::empty() }) + "        }\n        return *this;\n    }\n    "@ + class
        + "(const "@ + class + "&) = delete;\n    "@
        + class + "& operator=(const "@ + class
        + "&) = delete;\n\n    /// Check if this peer holds a resolved (non-null) interface.\n    /// Keys off the interface pointer, not `instance_.data`: stateless\n    /// contracts legitimately use a null instance as an opaque dispatch token.\n    explicit operator bool() const noexcept { return iface_ != nullptr; }\n\n    /// Check if this peer holds a resolved (non-null) interface.\n    bool is_valid() const noexcept { return iface_ != nullptr; }\n\n"@
}

/// The end of a peer caller class after its methods.
pub open spec fn cpp_peer_tail(acc: Seq<char>, class: Seq<char>, na: bool) -> Seq<char> {
    acc + "private:\n    /// Resolved interface pointer for the peer contract.\n    const GuestContractInterface* iface_;\n    /// Instance handle created from the peer interface.\n    GuestContractInstance instance_;\n    /// Host interface pointer used for `call_guest_method` and instance lifecycle.\n    const HostApi* host_;\n"@ + (if na { "    /// Stable-address backing buffer for the per-call arena. Held by unique_ptr\n    /// so the arena's interior pointers survive moving the caller value.\n    std::unique_ptr<std::array<uint8_t, CALL_ARENA_BUF_LEN>> arena_buf_;\n    /// Per-call bump arena over `arena_buf_`, reset at each arena-backed call.\n    CallArena arena_;\n"@ } else { Seq::<char>::empty() })
        + "\n"@ + (if na { "    explicit "@ + class + "(const GuestContractInterface* iface, GuestContractInstance inst, const HostApi* host)\n        : iface_(iface), instance_(inst), host_(host),\n          arena_buf_(std::make_unique<std::array<uint8_t, CALL_ARENA_BUF_LEN>>()),\n          arena_(polyplug_arena_new(arena_buf_->data(), CALL_ARENA_BUF_LEN, host)) {}\n"@ } else { "    explicit "@ + class + "(const GuestContractInterface* iface, GuestContractInstance inst, const HostApi* host) noexcept\n        : iface_(iface), instance_(inst), host_(host) {}\n"@ }) + "};\n\n"@
}

/// The `<Name>Peer` class calling a peer guest contract through the host.
pub open spec fn cpp_peer_caller(acc: Seq<char>, contract: ResolvedContract, min_version: u32) -> Seq<char> {
    let class = cpp_class(contract.name@) + "Peer"@;
    cpp_peer_tail(cpp_peer_fns(cpp_peer_head(acc, contract, min_version), class, contract.functions@), class, contract_arena(contract))
}

fn push_peer_head(out: &mut String, contract: &ResolvedContract, min_version: u32, class_name: &String, na: bool)
    requires
        class_name@ == cpp_class(contract.name@) + "Peer"@,
        na == contract_arena(*contract),
    ensures
        final(out)@ == cpp_peer_head(old(out)@, *contract, min_version),
{
    let ghost class = class_name@;
    out.append("/// Peer caller for guest contract `");
    out.append(contract.name.as_str());
    out.append("` (id=0x");
    push_hex16(out, contract.contract_id);
    out.append(")\n///\n/// Dispatches to the peer through the host-mediated `call_guest_method` path.\n/// Use `resolve()` to obtain an instance; returns `std::nullopt` when the\n/// contract is not registered or the host interface is unavailable.\n");
    if na {
        out.append("///\n/// # Call-arena lifetime\n///\n/// Methods returning variable-size values (`StringView`, `Buffer`, or structs\n/// that may embed one) are non-const and reset this caller's arena at the start\n/// of the call. Any view returned by such a method borrows arena memory and is\n/// valid only until the next arena-backed call on the same caller.\n");
    }
    out.append("class ");
    out.append(class_name.as_str());
    out.append(" {\npublic:\n    /// Discover and resolve the peer contract through the host.\n    ///\n    /// Returns `std::nullopt` if the host interface is unavailable, the contract\n    /// is not registered, or `resolve_guest_contract` returns null.\n    static std::optional<");
    out.append(class_name.as_str());
    out.append("> resolve() noexcept {\n        const HostApi* host = polyplug::get_host_interface();\n        if (host == nullptr) {\n            return std::nullopt;\n        }\n        GuestContractHandle handle = host->find_guest_contract(host, 0x");
    push_hex16(out, contract.contract_id);
    out.append("ULL, ");
    push_u32(out, min_version);
    out.append("U);\n        // Pass the handle straight to resolve_guest_contract; it rejects\n        // stale/invalid handles and returns nullptr — do not inspect fields.\n        const GuestContractInterface* iface = host->resolve_guest_contract(host, handle);\n        if (iface == nullptr) {\n            return std::nullopt;\n        }\n        // A null `instance.data` is valid: stateless contracts return a null\n        // handle from `create_instance` and use it as an opaque dispatch token.\n        GuestContractInstance instance = iface->create_instance(host, nullptr);\n        // Stamp the peer contract id so `host->call_guest_method` routes by it\n        // even when a stateless peer's create_instance returns a null (null-id)\n        // handle. The host-mediated path keys routing on contract_id.\n        instance.contract_id = 0x");
    push_hex16(out, contract.contract_id);
    out.append("ULL;\n        return ");
    out.append(class_name.as_str());
    out.append("(iface, instance, host);\n    }\n\n    /// Destructor - calls `destroy_instance` to clean up.\n    ~");
    out.append(class_name.as_str());
    out.append("() noexcept {\n");
    if na {
        out.append("        // Free any overflow blocks the arena still holds before destruction.\n        // arena_buf_ is null only on a moved-from caller.\n        if (arena_buf_) {\n            polyplug_arena_reset(&arena_);\n        }\n");
    }
    out.append("        // SAFETY: instance was created by create_instance on the resolved interface.\n        // We guard on instance.data to skip the call for stateless (null-data) contracts.\n        if (instance_.data != nullptr) {\n            iface_->destroy_instance(host_, instance_);\n            instance_.data = nullptr;  // Prevent reuse after cleanup.\n        }\n    }\n\n    // Move-only (instance handles are unique)\n    ");
    out.append(class_name.as_str());
    out.append("(");
    out.append(class_name.as_str());
    out.append("&& other) noexcept\n        : iface_(other.iface_),\n          instance_(other.instance_),\n");
    if na {
        out.append("          host_(other.host_),\n          arena_buf_(std::move(other.arena_buf_)),\n          arena_(other.arena_) {\n");
    } else {
        out.append("          host_(other.host_) {\n");
    }
    out.append("        other.instance_.data = nullptr;  // Prevent double-destroy.\n    }\n    ");
    out.append(class_name.as_str());
    out.append("& operator=(");
    out.append(class_name.as_str());
    out.append("&& other) noexcept {\n        if (this != &other) {\n");
    if na {
        out.append("            if (arena_buf_) {\n                polyplug_arena_reset(&arena_);\n            }\n");
    }
    out.append("            if (instance_.data != nullptr) {\n                iface_->destroy_instance(host_, instance_);\n            }\n            iface_ = other.iface_; instance_ = other.instance_; host_ = other.host_; other.instance_.data = nullptr;\n");
    if na {
        out.append("            arena_buf_ = std::move(other.arena_buf_); arena_ = other.arena_;\n");
    }
    out.append("        }\n        return *this;\n    }\n    ");
    out.append(class_name.as_str());
    out.append("(const ");
    out.append(class_name.as_str());
    out.append("&) = delete;\n    ");
    out.append(class_name.as_str());
    out.append("& operator=(const ");
    out.append(class_name.as_str());
    out.append("&) = delete;\n\n    /// Check if this peer holds a resolved (non-null) interface.\n    /// Keys off the interface pointer, not `instance_.data`: stateless\n    /// contracts legitimately use a null instance as an opaque dispatch token.\n    explicit operator bool() const noexcept { return iface_ != nullptr; }\n\n    /// Check if this peer holds a resolved (non-null) interface.\n    bool is_valid() const noexcept { return iface_ != nullptr; }\n\n");
}

fn push_peer_tail(out: &mut String, class_name: &String, na: bool)
    ensures
        final(out)@ == cpp_peer_tail(old(out)@, class_name@, na),
{
    let ghost class = class_name@;
    out.append("private:\n    /// Resolved interface pointer for the peer contract.\n    const GuestContractInterface* iface_;\n    /// Instance handle created from the peer interface.\n    GuestContractInstance instance_;\n    /// Host interface pointer used for `call_guest_method` and instance lifecycle.\n    const HostApi* host_;\n");
    if na {
        out.append("    /// Stable-address backing buffer for the per-call arena. Held by unique_ptr\n    /// so the arena's interior pointers survive moving the caller value.\n    std::unique_ptr<std::array<uint8_t, CALL_ARENA_BUF_LEN>> arena_buf_;\n    /// Per-call bump arena over `arena_buf_`, reset at each arena-backed call.\n    CallArena arena_;\n");
    }
    out.append("\n");
    if na {
        out.append("    explicit ");
        out.append(class_name.as_str());
        out.append("(const GuestContractInterface* iface, GuestContractInstance inst, const HostApi* host)\n        : iface_(iface), instance_(inst), host_(host),\n          arena_buf_(std::make_unique<std::array<uint8_t, CALL_ARENA_BUF_LEN>>()),\n          arena_(polyplug_arena_new(arena_buf_->data(), CALL_ARENA_BUF_LEN, host)) {}\n");
    } else {
        out.append("    explicit ");
        out.append(class_name.as_str());
        out.append("(const GuestContractInterface* iface, GuestContractInstance inst, const HostApi* host) noexcept\n        : iface_(iface), instance_(inst), host_(host) {}\n");
    }
    out.append("};\n\n");
}

/// Emit the peer caller class of a guest contract.
pub fn generate_cpp_peer_caller(out: &mut String, contract: &ResolvedContract, min_version: u32)
    ensures
        final(out)@ == cpp_peer_caller(old(out)@, *contract, min_version),
{
    let mut class_name: String = contract_name_to_class(contract.name.as_str());
    class_name.append("Peer");
    let na: bool = contract_needs_arena(contract);
    push_peer_head(out, contract, min_version, &class_name, na);
    let ghost s0 = out@;
    let n: usize = contract.functions.len();
    let mut i: usize = 0;
    while i < n
        invariant
            n == contract.functions@.len(),
            i <= n,
            class_name@ == cpp_class(contract.name@) + "Peer"@,
            out@ == cpp_peer_fns(s0, class_name@, contract.functions@.take(i as int)),
        decreases n - i,
    {
        generate_cpp_peer_fn_caller(out, class_name.as_str(), &contract.functions[i]);
        assert(contract.functions@.take(i + 1).drop_last() =~= contract.functions@.take(i as int));
        i = i + 1;
    }
    assert(contract.functions@.take(n as int) =~= contract.functions@);
    push_peer_tail(out, &class_name, na);
}

/// Every contract whose id one of the bundle's dependencies names, in order.
pub fn collect_peer_contracts(ir: &ValidatedIr) -> (r: Vec<&ResolvedContract>)
    ensures
        derefs(r@) == crate::generators::peer_contracts(ir),
{
    let r: Vec<&ResolvedContract> = crate::generators::collect_peer_contracts(ir);
    assert(derefs(r@) == crate::generators::peer_contracts(ir));
    r
}

/// The `min_version` of the first dependency on `target_contract_id`; 0 when none.
pub fn peer_min_version(ir: &ValidatedIr, target_contract_id: u64) -> (r: u32)
    ensures
        r == min_version_for(bundle_dependencies(ir), target_contract_id),
{
    crate::generators::peer_min_version(ir, target_contract_id)
}

/// The peer callers of `peers`, each with the minimum version its dependency asks for.
pub open spec fn cpp_peer_callers(acc: Seq<char>, peers: Seq<ResolvedContract>, deps: Seq<crate::ir::ResolvedDependency>) -> Seq<char>
    decreases peers.len(),
{
    if peers.len() == 0 {
        acc
    } else {
        let c = peers.last();
        cpp_peer_caller(cpp_peer_callers(acc, peers.drop_last(), deps), c, min_version_for(deps, c.contract_id))
    }
}

/// `guest/peer_callers.hpp` for the contracts `peers` of the IR's bundle.
pub open spec fn cpp_peer_callers_hpp(ir: ValidatedIr, peers: Seq<ResolvedContract>) -> Seq<char> {
    let head = CPP_BUNDLE_HEADER@ + CPP_PEER_HEAD@ + "namespace polyplug_plugin {\n\n"@ + "using namespace polyplug_generated;\n\n"@;
    let with_arena = if any_contract_arena(peers) {
        head + CPP_CALL_ARENA_HELPERS@
    } else {
        head
    };
    cpp_peer_callers(with_arena, peers, bundle_dependencies(&ir)) + "}  // namespace polyplug_plugin\n"@
}

/// Generate `guest/peer_callers.hpp`.
pub fn generate_cpp_peer_callers_file(ir: &ValidatedIr, peers: &[&ResolvedContract]) -> (r: String)
    ensures
        r@ == cpp_peer_callers_hpp(*ir, derefs(peers@)),
{
    let ghost ps = derefs(peers@);
    let mut out: String = String::new();
    out.append(CPP_BUNDLE_HEADER);
    out.append(CPP_PEER_HEAD);
    out.append("namespace polyplug_plugin {\n\n");
    out.append("using namespace polyplug_generated;\n\n");
    if any_needs_arena(peers) {
        emit_cpp_call_arena_helpers(&mut out);
    }
    let ghost s0 = out@;
    let n: usize = peers.len();
    let mut i: usize = 0;
    while i < n
        invariant
            n == peers@.len(),
            ps == derefs(peers@),
            i <= n,
            out@ == cpp_peer_callers(s0, ps.take(i as int), bundle_dependencies(ir)),
        decreases n - i,
    {
        let c: &ResolvedContract = peers[i];
        let min_ver: u32 = peer_min_version(ir, c.contract_id);
        generate_cpp_peer_caller(&mut out, c, min_ver);
        assert(ps.take(i + 1).drop_last() =~= ps.take(i as int));
        assert(ps.take(i + 1).last() == *c);
        i = i + 1;
    }
    assert(ps.take(n as int) =~= ps);
    out.append("}  // namespace polyplug_plugin\n");
    out
}

// ─── The generator ──────────────────────────────────────────────────────────

/// The C++ generator.
pub struct CppGenerator;

/// The files the host side gets.
pub open spec fn cpp_host_files(ir: ValidatedIr) -> Seq<(Seq<char>, Seq<char>, bool)> {
    let base = seq![
        ("host/types.hpp"@, cpp_types_hpp(ir), false),
        ("host/host_callers.hpp"@, cpp_host_callers_hpp(ir), false),
        ("manifest.toml"@, CPP_MANIFEST@, true),
    ];
    if ir.host_contracts@.len() == 0 {
        base
    } else {
        base + seq![
            ("host/host_contracts.hpp"@, cpp_host_contracts_hpp(ir), false),
            ("host/interface_factories.hpp"@, cpp_interface_factories_hpp(ir), false),
        ]
    }
}

/// The files the guest side gets.
pub open spec fn cpp_guest_files(ir: ValidatedIr) -> Seq<(Seq<char>, Seq<char>, bool)> {
    let base = seq![
        ("guest/types.hpp"@, cpp_types_hpp(ir), false),
        ("guest/contracts.hpp"@, cpp_contracts_hpp(ir), false),
        ("guest/interfaces.hpp"@, cpp_interfaces_hpp(ir), false),
        ("guest/init.hpp"@, cpp_init_hpp(ir), false),
    ];
    let with_manifest = if ir.bundle is Some {
        base.push(("manifest.toml"@, cpp_bundle_manifest(ir), true))
    } else {
        base
    };
    let with_host = if ir.host_contracts@.len() == 0 {
        with_manifest
    } else {
        with_manifest.push(("guest/host_contracts.hpp"@, cpp_guest_host_contracts_hpp(ir), false))
    };
    let peers = crate::generators::peer_contracts(&ir);
    if peers.len() == 0 {
        with_host
    } else {
        with_host.push(("guest/peer_callers.hpp"@, cpp_peer_callers_hpp(ir, peers), false))
    }
}

impl CodeGenerator for CppGenerator {
    #[verifier::rlimit(40)]
    fn generate_host(&self, ir: &ValidatedIr, files: &mut GeneratedFiles) -> (r: Result<(), crate::error::CodegenError>)
        ensures
            r is Ok,
            files_view(final(files).files@) == files_view(old(files).files@) + cpp_host_files(*ir),
    {
        let ghost before = files_view(files.files@);
        let types_hpp: String = generate_types_hpp(ir);
        push_file(files, "host/types.hpp", types_hpp, false);
        let callers: String = match generate_host_callers_hpp(ir) {
            Ok(s) => s,
            Err(e) => {
                return Err(e);
            },
        };
        push_file(files, "host/host_callers.hpp", callers, false);
        push_file(files, "manifest.toml", generate_manifest_toml(), true);
        if ir.host_contracts.len() != 0 {
            push_file(files, "host/host_contracts.hpp", generate_cpp_host_contracts_file(ir), false);
            push_file(files, "host/interface_factories.hpp", generate_cpp_host_interface_factories_file(ir), false);
        }
        assert(files_view(files.files@) =~= before + cpp_host_files(*ir));
        Ok(())
    }

    #[verifier::rlimit(40)]
    fn generate_guest(&self, ir: &ValidatedIr, files: &mut GeneratedFiles) -> (r: Result<(), crate::error::CodegenError>)
        ensures
            r is Ok,
            files_view(final(files).files@) == files_view(old(files).files@) + cpp_guest_files(*ir),
    {
        let ghost before = files_view(files.files@);
        push_file(files, "guest/types.hpp", generate_types_hpp(ir), false);
        push_file(files, "guest/contracts.hpp", generate_contracts_hpp(ir), false);
        let interfaces: String = match generate_interfaces_hpp(ir) {
            Ok(s) => s,
            Err(e) => {
                return Err(e);
            },
        };
        push_file(files, "guest/interfaces.hpp", interfaces, false);
        let init: String = match generate_init_hpp(ir) {
            Ok(s) => s,
            Err(e) => {
                return Err(e);
            },
        };
        push_file(files, "guest/init.hpp", init, false);
        let ghost mid = files_view(files.files@);
        if ir.bundle.is_some() {
            push_file(files, "manifest.toml", generate_bundle_manifest_cpp(ir), true);
        }
        if ir.host_contracts.len() != 0 {
            push_file(files, "guest/host_contracts.hpp", generate_cpp_guest_host_contracts_file(ir), false);
        }
        let ghost mid2 = files_view(files.files@);
        let peers: Vec<&ResolvedContract> = collect_peer_contracts(ir);
        if peers.len() != 0 {
            push_file(files, "guest/peer_callers.hpp", generate_cpp_peer_callers_file(ir, peers.as_slice()), false);
        }
        proof {
            let ps = crate::generators::peer_contracts(ir);
            let base = seq![
                ("guest/types.hpp"@, cpp_types_hpp(*ir), false),
                ("guest/contracts.hpp"@, cpp_contracts_hpp(*ir), false),
                ("guest/interfaces.hpp"@, cpp_interfaces_hpp(*ir), false),
                ("guest/init.hpp"@, cpp_init_hpp(*ir), false),
            ];
            assert(mid =~= before + base);
            let with_manifest = if ir.bundle is Some {
                base.push(("manifest.toml"@, cpp_bundle_manifest(*ir), true))
            } else {
                base
            };
            let with_host = if ir.host_contracts@.len() == 0 {
                with_manifest
            } else {
                with_manifest.push(("guest/host_contracts.hpp"@, cpp_guest_host_contracts_hpp(*ir), false))
            };
            assert(mid2 =~= before + with_host);
            assert(files_view(files.files@) =~= before + cpp_guest_files(*ir));
        }
        Ok(())
    }
}
} // verus!
