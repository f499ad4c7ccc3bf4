//! LuaJIT code generator: FFI cdefs, host callers, guest registration,
//! host-contract metatables and callers, peer callers.
use crate::generators::enum_values::{
    lua_transform_value_expr, lua_value_expr, substitute_refs, substitute_refs_with,
};
use crate::generators::manifest::{bundle_manifest, render_bundle_manifest, MANIFEST_NO_BUNDLE};
use crate::generators::{files_view, host_class_base, host_class_base_of, push_file, CodeGenerator, GeneratedFiles};
use crate::ir::{
    primitive_cpp_name, repr_cpp_name, AbiBuiltin, EnumDef, EnumVariant, PrimitiveType,
    ReprType, ResolvedContract, ResolvedFunction, ResolvedHostContract, ResolvedParam,
    ResolvedType, ResolvedTypeRef,
};
use crate::text::{
    capitalize, chars_of, contains_str, has_infix, concat_capitalized, dec_digits, dots_dashes_to_underscores, dots_to_underscores, hex_digits, join_param_names,
    pascal, push_chars, push_hex16, push_param_names, push_pascal, push_u32, push_usize, replace_chars, split_seq,
    str_eq, lower_str, upper_str, to_lowercase, to_uppercase,
};
use vstd::prelude::*;

verus! {

broadcast use vstd::string::group_string_axioms;

// ─── Names ──────────────────────────────────────────────────────────────────

/// `image.decode` -> `image_decode`.
pub fn contract_name_to_prefix(name: &str) -> (r: String)
    ensures
        r@ == replace_chars(name@, seq!['.'], '_'),
{
    dots_to_underscores(name)
}

/// The FFI struct name of a guest contract: `image.decode` -> `ImageDecodeContract`.
pub open spec fn lua_contract_struct(name: Seq<char>) -> Seq<char> {
    pascal(name, '.') + "Contract"@
}

/// `image.decode` -> `ImageDecodeContract`.
pub fn contract_name_to_struct(name: &str) -> (r: String)
    ensures
        r@ == lua_contract_struct(name@),
{
    let v: Vec<char> = chars_of(name);
    let mut r: String = String::new();
    push_pascal(&mut r, &v, '.');
    r.append("Contract");
    r
}

/// The argument-pack struct name for a function: the owner's name, the
/// function name in PascalCase (split on `_`), then `Args`.
pub open spec fn lua_arg_pack_struct(owner: Seq<char>, fn_name: Seq<char>) -> Seq<char> {
    owner + pascal(fn_name, '_') + "Args"@
}

/// `("HostLogger", "log_with_level")` -> `HostLoggerLogWithLevelArgs`.
pub fn arg_pack_struct_name(contract_struct: &str, fn_name: &str) -> (r: String)
    ensures
        r@ == lua_arg_pack_struct(contract_struct@, fn_name@),
{
    let mut r: String = String::new();
    r.append(contract_struct);
    let v: Vec<char> = chars_of(fn_name);
    push_pascal(&mut r, &v, '_');
    r.append("Args");
    r
}

/// Convert a host contract name to its Lua class name:
/// `host.logger` -> `HostLogger`, `host.fs.reader` -> `HostFsReader`.
pub fn host_contract_name_to_lua_class(name: &str) -> (r: String)
    ensures
        r@ == host_class_base(name@),
{
    host_class_base_of(name)
}

/// The guest-side caller class for a host contract.
pub open spec fn lua_host_caller_class(name: Seq<char>) -> Seq<char> {
    host_class_base(name) + "Contract"@
}

/// Convert a host contract name to the Lua guest caller class name:
/// `host.logger` -> `HostLoggerContract`.
pub fn host_contract_name_to_lua_caller(name: &str) -> (r: String)
    ensures
        r@ == lua_host_caller_class(name@),
{
    let mut r: String = host_class_base_of(name);
    r.append("Contract");
    r
}

/// The guest caller class is always the host class with `Contract` appended.
pub proof fn lua_caller_extends_class(name: Seq<char>)
    ensures
        lua_host_caller_class(name) == host_class_base(name) + "Contract"@,
        has_prefix_of(lua_host_caller_class(name), host_class_base(name)),
{
    assert((host_class_base(name) + "Contract"@).take(host_class_base(name).len() as int) =~= host_class_base(name));
}

/// Whether `p` is a prefix of `s`.
pub open spec fn has_prefix_of(s: Seq<char>, p: Seq<char>) -> bool {
    p.len() <= s.len() && s.take(p.len() as int) == p
}

/// The peer-caller class name of a guest contract.
pub open spec fn lua_peer_class(name: Seq<char>) -> Seq<char> {
    pascal(name, '.') + "Peer"@
}

/// `pipeline.Validator` -> `PipelineValidatorPeer`.
pub fn contract_name_to_lua_peer_class(name: &str) -> (r: String)
    ensures
        r@ == lua_peer_class(name@),
{
    let v: Vec<char> = chars_of(name);
    let mut r: String = String::new();
    push_pascal(&mut r, &v, '.');
    r.append("Peer");
    r
}

// ─── Types ──────────────────────────────────────────────────────────────────

/// The LuaJIT FFI spelling of a type.
pub open spec fn lua_type(ty: ResolvedTypeRef) -> Seq<char> {
    match ty {
        ResolvedTypeRef::Primitive(p) => primitive_cpp_name(p),
        ResolvedTypeRef::AbiType(AbiBuiltin::StringView) => "StringView"@,
        ResolvedTypeRef::AbiType(AbiBuiltin::Buffer) => "Buffer"@,
        ResolvedTypeRef::AbiType(AbiBuiltin::Ptr) => "void*"@,
        ResolvedTypeRef::AbiType(AbiBuiltin::Void) => "void"@,
        ResolvedTypeRef::UserDefined(n) => n@,
    }
}

/// The LuaJIT FFI spelling of a type.
pub fn lua_type_name(ty: &ResolvedTypeRef) -> (r: String)
    ensures
        r@ == lua_type(*ty),
{
    match ty {
        ResolvedTypeRef::Primitive(p) => p.cpp_name().to_owned(),
        ResolvedTypeRef::AbiType(AbiBuiltin::StringView) => "StringView".to_owned(),
        ResolvedTypeRef::AbiType(AbiBuiltin::Buffer) => "Buffer".to_owned(),
        ResolvedTypeRef::AbiType(AbiBuiltin::Ptr) => "void*".to_owned(),
        ResolvedTypeRef::AbiType(AbiBuiltin::Void) => "void".to_owned(),
        ResolvedTypeRef::UserDefined(name) => name.clone(),
    }
}

/// Whether a function returns something other than nothing or `void`.
pub open spec fn returns_value(ret: Option<ResolvedTypeRef>) -> bool {
    match ret {
        Some(ResolvedTypeRef::AbiType(AbiBuiltin::Void)) => false,
        Some(_) => true,
        None => false,
    }
}

/// Whether a function returns something other than nothing or `void`.
pub fn has_return_value(ret: &Option<ResolvedTypeRef>) -> (r: bool)
    ensures
        r == returns_value(*ret),
{
    match ret {
        Some(ResolvedTypeRef::AbiType(AbiBuiltin::Void)) => false,
        Some(_) => true,
        None => false,
    }
}

/// Whether LuaJIT holds a value of this type as a value cdata (primitives
/// and raw pointers), which needs a one-element array slot to be addressed.
pub open spec fn is_scalar_return(ty: ResolvedTypeRef) -> bool {
    match ty {
        ResolvedTypeRef::Primitive(_) => true,
        ResolvedTypeRef::AbiType(AbiBuiltin::Ptr) => true,
        _ => false,
    }
}

/// Whether a return of this type is a value cdata in LuaJIT.
pub fn lua_return_is_scalar(ty: &ResolvedTypeRef) -> (r: bool)
    ensures
        r == is_scalar_return(*ty),
{
    match ty {
        ResolvedTypeRef::Primitive(_) => true,
        ResolvedTypeRef::AbiType(AbiBuiltin::Ptr) => true,
        _ => false,
    }
}

/// The first enum in `enums` named `name`.
pub open spec fn find_enum(enums: Seq<EnumDef>, name: Seq<char>) -> Option<EnumDef>
    decreases enums.len(),
{
    if enums.len() == 0 {
        None
    } else if enums[0].name@ == name {
        Some(enums[0])
    } else {
        find_enum(enums.drop_first(), name)
    }
}

/// The repr of the first enum in `enums` named `name`.
pub fn find_enum_repr(enums: &[EnumDef], name: &str) -> (r: Option<ReprType>)
    ensures
        r == (match find_enum(enums@, name@) {
            Some(e) => Some(e.repr),
            None => None,
        }),
{
    let mut i: usize = 0;
    assert(enums@.skip(0) =~= enums@);
    while i < enums.len()
        invariant
            i <= enums@.len(),
            find_enum(enums@, name@) == find_enum(enums@.skip(i as int), name@),
        decreases enums@.len() - i,
    {
        assert(enums@.skip(i as int).drop_first() =~= enums@.skip(i + 1));
        assert(enums@.skip(i as int)[0] == enums@[i as int]);
        if str_eq(enums[i].name.as_str(), name) {
            return Some(enums[i].repr);
        }
        i = i + 1;
    }
    None
}

/// The repr C type of `ty` when it names a contract enum.
pub open spec fn enum_repr_ctype(ty: ResolvedTypeRef, enums: Seq<EnumDef>) -> Option<Seq<char>> {
    match ty {
        ResolvedTypeRef::UserDefined(n) => match find_enum(enums, n@) {
            Some(e) => Some(repr_cpp_name(e.repr)),
            None => None,
        },
        _ => None,
    }
}

/// Resolve `ty` to its enum repr C integer type name when it names a
/// contract enum. An enum value is a plain Lua number and must travel
/// through a repr-typed slot, while a struct cdata carries its own address.
pub fn lua_enum_repr_c_type(ty: &ResolvedTypeRef, enums: &[EnumDef]) -> (r: Option<String>)
    ensures
        match enum_repr_ctype(*ty, enums@) {
            Some(c) => r matches Some(s) && s@ == c,
            None => r is None,
        },
{
    match ty {
        ResolvedTypeRef::UserDefined(name) => match find_enum_repr(enums, name.as_str()) {
            Some(repr) => Some(repr.cpp_name().to_owned()),
            None => None,
        },
        _ => None,
    }
}

/// The C type used in cdefs, casts and `ffi.new`: contract enums (emitted
/// as Lua tables, never cdef'd) map to their repr's C integer type.
pub open spec fn lua_ctype(ty: ResolvedTypeRef, enums: Seq<EnumDef>) -> Seq<char> {
    match enum_repr_ctype(ty, enums) {
        Some(c) => c,
        None => lua_type(ty),
    }
}

/// The C type of `ty` for cdef / `ffi.cast` / `ffi.new` emission.
pub fn lua_c_type_name(ty: &ResolvedTypeRef, enums: &[EnumDef]) -> (r: String)
    ensures
        r@ == lua_ctype(*ty, enums@),
{
    match lua_enum_repr_c_type(ty, enums) {
        Some(c) => c,
        None => lua_type_name(ty),
    }
}

/// The Lua annotation type of a host contract parameter or return value.
pub open spec fn lua_host_annotation(ty: ResolvedTypeRef) -> Seq<char> {
    match ty {
        ResolvedTypeRef::Primitive(_) => "number"@,
        ResolvedTypeRef::AbiType(AbiBuiltin::StringView) => "string"@,
        ResolvedTypeRef::AbiType(AbiBuiltin::Buffer) => "string"@,
        ResolvedTypeRef::AbiType(AbiBuiltin::Ptr) => "userdata"@,
        ResolvedTypeRef::AbiType(AbiBuiltin::Void) => "nil"@,
        ResolvedTypeRef::UserDefined(_) => "userdata"@,
    }
}

/// Lua type annotation for host contract method parameters: strings for
/// StringView and Buffer, numbers for primitives, userdata otherwise.
pub fn lua_host_param_type_annotation(ty: &ResolvedTypeRef) -> (r: String)
    ensures
        r@ == lua_host_annotation(*ty),
{
    match ty {
        ResolvedTypeRef::Primitive(_) => "number".to_owned(),
        ResolvedTypeRef::AbiType(AbiBuiltin::StringView) => "string".to_owned(),
        ResolvedTypeRef::AbiType(AbiBuiltin::Buffer) => "string".to_owned(),
        ResolvedTypeRef::AbiType(AbiBuiltin::Ptr) => "userdata".to_owned(),
        ResolvedTypeRef::AbiType(AbiBuiltin::Void) => "nil".to_owned(),
        ResolvedTypeRef::UserDefined(_) => "userdata".to_owned(),
    }
}

/// Lua return type annotation for host contract methods.
pub fn lua_host_return_type_annotation(ty: &ResolvedTypeRef) -> (r: String)
    ensures
        r@ == lua_host_annotation(*ty),
{
    match ty {
        ResolvedTypeRef::Primitive(_) => "number".to_owned(),
        ResolvedTypeRef::AbiType(AbiBuiltin::StringView) => "string".to_owned(),
        ResolvedTypeRef::AbiType(AbiBuiltin::Buffer) => "string".to_owned(),
        ResolvedTypeRef::AbiType(AbiBuiltin::Ptr) => "userdata".to_owned(),
        ResolvedTypeRef::AbiType(AbiBuiltin::Void) => "nil".to_owned(),
        ResolvedTypeRef::UserDefined(_) => "userdata".to_owned(),
    }
}

/// The expression a caller returns after a successful call: enum slots
/// through `tonumber`, scalar slots by element, everything else as is.
pub open spec fn lua_return(ret: Option<ResolvedTypeRef>, enums: Seq<EnumDef>) -> Seq<char> {
    match ret {
        Some(ret) => if enum_repr_ctype(ret, enums) is Some {
            "tonumber(out_val[0])"@
        } else if is_scalar_return(ret) {
            "out_val[0]"@
        } else {
            "out_val"@
        },
        None => "out_val"@,
    }
}

/// The expression a caller returns after a successful call.
pub fn lua_return_expr(ret: &Option<ResolvedTypeRef>, enums: &[EnumDef]) -> (r: String)
    ensures
        r@ == lua_return(*ret, enums@),
{
    match ret {
        Some(ret) => {
            if lua_enum_repr_c_type(ret, enums).is_some() {
                "tonumber(out_val[0])".to_owned()
            } else if lua_return_is_scalar(ret) {
                "out_val[0]".to_owned()
            } else {
                "out_val".to_owned()
            }
        },
        None => "out_val".to_owned(),
    }
}

/// Whether a function's arguments travel in an argument-pack struct.
pub fn needs_arg_pack(params: &Vec<ResolvedParam>) -> (r: bool)
    ensures
        r == (params@.len() >= 2),
{
    params.len() >= 2
}

// ─── Fixed text ─────────────────────────────────────────────────────────────

/// The banner every generated Lua file starts with.
pub const LUA_FILE_HEADER: &'static str = "-- THIS FILE IS AUTO-GENERATED BY polyplugc\n-- DO NOT EDIT BY HAND\n-- Re-generate with: polyplugc generate --api <api.toml> --lang lua --out <dir>\n\n";

/// The banner every generated Lua file starts with.
pub fn file_header() -> (r: &'static str)
    ensures
        r@ == LUA_FILE_HEADER@,
{
    LUA_FILE_HEADER
}

/// A `cdef` wrapper that tolerates declarations another module already made.
pub const LUA_CDEF_GUARDED: &'static str = "local function cdef_guarded(decl)\n\tlocal ok, err = pcall(ffi.cdef, decl)\n\tif not ok and not string.find(err, \"already defined\", 1, true) then\n\t\terror(err, 2)\n\tend\nend\n\n";

/// A `cdef` wrapper that tolerates declarations another module already made.
pub fn cdef_guarded_block() -> (r: &'static str)
    ensures
        r@ == LUA_CDEF_GUARDED@,
{
    LUA_CDEF_GUARDED
}

// ─── Struct declarations ────────────────────────────────────────────────────

/// One `        <ctype> <name>;` line per parameter.
pub open spec fn lua_param_fields(acc: Seq<char>, params: Seq<ResolvedParam>, enums: Seq<EnumDef>) -> Seq<char>
    decreases params.len(),
{
    if params.len() == 0 {
        acc
    } else {
        lua_param_fields(acc, params.drop_last(), enums) + "        "@ + lua_ctype(params.last().ty, enums)
            + " "@ + params.last().name@ + ";\n"@
    }
}

fn push_param_fields(out: &mut String, params: &Vec<ResolvedParam>, enums: &[EnumDef])
    ensures
        final(out)@ == lua_param_fields(old(out)@, params@, enums@),
{
    let n: usize = params.len();
    let mut i: usize = 0;
    while i < n
        invariant
            n == params@.len(),
            i <= n,
            out@ == lua_param_fields(old(out)@, params@.take(i as int), enums@),
        decreases n - i,
    {
        let ty_name: String = lua_c_type_name(&params[i].ty, enums);
        out.append("        ");
        out.append(ty_name.as_str());
        out.append(" ");
        out.append(params[i].name.as_str());
        out.append(";\n");
        assert(params@.take(i + 1).drop_last() =~= params@.take(i as int));
        i = i + 1;
    }
    assert(params@.take(n as int) =~= params@);
}

/// The argument-pack struct declaration for a function.
pub open spec fn lua_arg_pack_decl(acc: Seq<char>, owner: Seq<char>, func: ResolvedFunction, enums: Seq<EnumDef>) -> Seq<char> {
    lua_param_fields(acc + "    typedef struct {\n"@, func.params@, enums) + "    } "@ + lua_arg_pack_struct(owner, func.name@) + ";\n"@
}

/// Emit the argument-pack struct declaration for `func`, owned by `contract_struct`.
pub fn emit_lua_arg_pack_struct(out: &mut String, contract_struct: &str, func: &ResolvedFunction, enums: &[EnumDef])
    ensures
        final(out)@ == lua_arg_pack_decl(old(out)@, contract_struct@, *func, enums@),
{
    let struct_name: String = arg_pack_struct_name(contract_struct, func.name.as_str());
    out.append("    typedef struct {\n");
    push_param_fields(out, &func.params, enums);
    out.append("    } ");
    out.append(struct_name.as_str());
    out.append(";\n");
}

/// One `        <ctype> <name>;` line per struct field.
pub open spec fn lua_struct_fields(acc: Seq<char>, fields: Seq<crate::ir::ResolvedField>, enums: Seq<EnumDef>) -> Seq<char>
    decreases fields.len(),
{
    if fields.len() == 0 {
        acc
    } else {
        lua_struct_fields(acc, fields.drop_last(), enums) + "        "@ + lua_ctype(fields.last().ty, enums)
            + " "@ + fields.last().name@ + ";\n"@
    }
}

/// The cdef of a user-defined struct.
pub open spec fn lua_user_type_decl(acc: Seq<char>, ty: ResolvedType, enums: Seq<EnumDef>) -> Seq<char> {
    lua_struct_fields(acc + "    typedef struct {\n"@, ty.fields@, enums) + "    } "@ + ty.name@ + ";\n"@
}

/// Emit the cdef of a user-defined struct.
pub fn generate_lua_user_type(out: &mut String, ty: &ResolvedType, enums: &[EnumDef])
    ensures
        final(out)@ == lua_user_type_decl(old(out)@, *ty, enums@),
{
    out.append("    typedef struct {\n");
    let ghost start = out@;
    let n: usize = ty.fields.len();
    let mut i: usize = 0;
    while i < n
        invariant
            n == ty.fields@.len(),
            i <= n,
            out@ == lua_struct_fields(start, ty.fields@.take(i as int), enums@),
        decreases n - i,
    {
        let ty_name: String = lua_c_type_name(&ty.fields[i].ty, enums);
        out.append("        ");
        out.append(ty_name.as_str());
        out.append(" ");
        out.append(ty.fields[i].name.as_str());
        out.append(";\n");
        assert(ty.fields@.take(i + 1).drop_last() =~= ty.fields@.take(i as int));
        i = i + 1;
    }
    assert(ty.fields@.take(n as int) =~= ty.fields@);
    out.append("    } ");
    out.append(ty.name.as_str());
    out.append(";\n");
}

/// `, a, b` for parameters `a` and `b` (empty without parameters).
pub open spec fn lua_sig_params(params: Seq<ResolvedParam>) -> Seq<char>
    decreases params.len(),
{
    if params.len() == 0 {
        Seq::<char>::empty()
    } else {
        lua_sig_params(params.drop_last()) + ", "@ + params.last().name@
    }
}

/// The parameter list that follows `self` in a caller method signature.
pub fn build_lua_sig_params(func: &ResolvedFunction) -> (r: String)
    ensures
        r@ == lua_sig_params(func.params@),
{
    let mut r: String = String::new();
    let n: usize = func.params.len();
    let mut i: usize = 0;
    while i < n
        invariant
            n == func.params@.len(),
            i <= n,
            r@ == lua_sig_params(func.params@.take(i as int)),
        decreases n - i,
    {
        r.append(", ");
        r.append(func.params[i].name.as_str());
        assert(func.params@.take(i + 1).drop_last() =~= func.params@.take(i as int));
        i = i + 1;
    }
    assert(func.params@.take(n as int) =~= func.params@);
    r
}

// ─── Host contract metatables ───────────────────────────────────────────────

/// `--- @param` lines for the parameters of a host contract method.
pub open spec fn lua_meta_params(acc: Seq<char>, params: Seq<ResolvedParam>) -> Seq<char>
    decreases params.len(),
{
    if params.len() == 0 {
        acc
    } else {
        lua_meta_params(acc, params.drop_last()) + "--- @param "@ + params.last().name@ + " "@
            + lua_host_annotation(params.last().ty) + "\n"@
    }
}

/// The annotated abstract method for one host contract function.
pub open spec fn lua_meta_method(acc: Seq<char>, class: Seq<char>, func: ResolvedFunction) -> Seq<char> {
    let ret = match func.returns {
        Some(t) => lua_host_annotation(t),
        None => "nil"@,
    };
    let names = if func.params@.len() == 0 {
        "self"@
    } else {
        join_param_names(func.params@)
    };
    lua_meta_params(acc + "--- @param self table\n"@, func.params@) + "--- @return "@ + ret + "\n"@ + "function "@
        + class + ":"@ + func.name@ + "("@ + names + ")\n"@ + "    error(\"abstract method: "@ + func.name@
        + " must be implemented by host\", 2)\n"@ + "end\n\n"@
}

/// The abstract methods of all functions of a host contract.
pub open spec fn lua_meta_methods(acc: Seq<char>, class: Seq<char>, funcs: Seq<ResolvedFunction>) -> Seq<char>
    decreases funcs.len(),
{
    if funcs.len() == 0 {
        acc
    } else {
        lua_meta_method(lua_meta_methods(acc, class, funcs.drop_last()), class, funcs.last())
    }
}

/// The constructor of a host contract metatable.
pub const LUA_META_NEW_BODY: &'static str = "    local obj = {}\n    setmetatable(obj, self)\n    return obj\nend\n\n";

/// The metatable definition for one host contract.
pub open spec fn lua_metatable(acc: Seq<char>, contract: ResolvedHostContract) -> Seq<char> {
    let class = host_class_base(contract.name@);
    lua_meta_methods(
        acc + "-- Host contract `"@ + contract.name@ + "` (id=0x"@ + hex_digits(contract.contract_id as nat, 16)
            + ")\n"@ + class + " = {}\n"@ + class + ".__index = "@ + class + "\n\n"@ + "--- @return "@ + class
            + "\n"@ + "function "@ + class + ":new()\n"@ + LUA_META_NEW_BODY@,
        class,
        contract.functions@,
    ) + "\n"@
}

fn generate_lua_meta_method(out: &mut String, class_name: &String, func: &ResolvedFunction)
    ensures
        final(out)@ == lua_meta_method(old(out)@, class_name@, *func),
{
    out.append("--- @param self table\n");
    let ghost start = out@;
    let n: usize = func.params.len();
    let mut i: usize = 0;
    while i < n
        invariant
            n == func.params@.len(),
            i <= n,
            out@ == lua_meta_params(start, func.params@.take(i as int)),
        decreases n - i,
    {
        let annot: String = lua_host_param_type_annotation(&func.params[i].ty);
        out.append("--- @param ");
        out.append(func.params[i].name.as_str());
        out.append(" ");
        out.append(annot.as_str());
        out.append("\n");
        assert(func.params@.take(i + 1).drop_last() =~= func.params@.take(i as int));
        i = i + 1;
    }
    assert(func.params@.take(n as int) =~= func.params@);
    let return_type: String = match &func.returns {
        Some(ty) => lua_host_return_type_annotation(ty),
        None => "nil".to_owned(),
    };
    out.append("--- @return ");
    out.append(return_type.as_str());
    out.append("\n");
    out.append("function ");
    out.append(class_name.as_str());
    out.append(":");
    out.append(func.name.as_str());
    out.append("(");
    if func.params.len() == 0 {
        out.append("self");
    } else {
        push_param_names(out, &func.params);
    }
    out.append(")\n");
    out.append("    error(\"abstract method: ");
    out.append(func.name.as_str());
    out.append(" must be implemented by host\", 2)\n");
    out.append("end\n\n");
}

/// Generate the metatable definition for one host contract.
pub fn generate_lua_host_contract_metatable(out: &mut String, contract: &ResolvedHostContract)
    ensures
        final(out)@ == lua_metatable(old(out)@, *contract),
{
    let class_name: String = host_contract_name_to_lua_class(contract.name.as_str());
    out.append("-- Host contract `");
    out.append(contract.name.as_str());
    out.append("` (id=0x");
    push_hex16(out, contract.contract_id);
    out.append(")\n");
    out.append(class_name.as_str());
    out.append(" = {}\n");
    out.append(class_name.as_str());
    out.append(".__index = ");
    out.append(class_name.as_str());
    out.append("\n\n");
    out.append("--- @return ");
    out.append(class_name.as_str());
    out.append("\n");
    out.append("function ");
    out.append(class_name.as_str());
    out.append(":new()\n");
    out.append(LUA_META_NEW_BODY);
    let ghost start = out@;
    let n: usize = contract.functions.len();
    let mut i: usize = 0;
    while i < n
        invariant
            n == contract.functions@.len(),
            i <= n,
            class_name@ == host_class_base(contract.name@),
            out@ == lua_meta_methods(start, class_name@, contract.functions@.take(i as int)),
        decreases n - i,
    {
        generate_lua_meta_method(out, &class_name, &contract.functions[i]);
        assert(contract.functions@.take(i + 1).drop_last() =~= contract.functions@.take(i as int));
        i = i + 1;
    }
    assert(contract.functions@.take(n as int) =~= contract.functions@);
    out.append("\n");
}

// ─── Host callers ───────────────────────────────────────────────────────────

/// `    args_val.<n> = <n>` lines for every parameter.
pub open spec fn lua_pack_assignments(acc: Seq<char>, params: Seq<ResolvedParam>) -> Seq<char>
    decreases params.len(),
{
    if params.len() == 0 {
        acc
    } else {
        lua_pack_assignments(acc, params.drop_last()) + "    args_val."@ + params.last().name@ + " = "@
            + params.last().name@ + "\n"@
    }
}

/// How a host caller turns its arguments into `args_ptr`.
pub open spec fn lua_host_args(acc: Seq<char>, func: ResolvedFunction, contract_prefix: Seq<char>, enums: Seq<EnumDef>) -> Seq<char> {
    let params = func.params@;
    if params.len() == 0 {
        acc + "    local args_ptr = nil\n"@
    } else if params.len() == 1 {
        let n = params[0].name@;
        match params[0].ty {
            ResolvedTypeRef::AbiType(AbiBuiltin::StringView) => acc + "    local "@ + n + "_bytes = tostring("@ + n
                + ")\n"@ + "    local "@ + n + "_view = ffi.new(\"StringView\")\n"@ + "    "@ + n
                + "_view.ptr = ffi.cast(\"const uint8_t*\", "@ + n + "_bytes)\n"@ + "    "@ + n + "_view.len = #"@ + n
                + "_bytes\n"@ + "    local args_ptr = ffi.cast(\"const void*\", "@ + n + "_view)\n"@,
            ResolvedTypeRef::AbiType(AbiBuiltin::Buffer) => acc + "    local "@ + n + "_bytes = tostring("@ + n + ")\n"@
                + "    local "@ + n + "_buf = ffi.new(\"Buffer\")\n"@ + "    "@ + n
                + "_buf.ptr = ffi.cast(\"void*\", "@ + n + "_bytes)\n"@ + "    "@ + n + "_buf.len = #"@ + n
                + "_bytes\n"@ + "    local args_ptr = ffi.cast(\"const void*\", "@ + n + "_buf)\n"@,
            ResolvedTypeRef::UserDefined(_) => match enum_repr_ctype(params[0].ty, enums) {
                Some(repr) => acc + "    local "@ + n + "_val = ffi.new(\""@ + repr + "[1]\", "@ + n + ")\n"@
                    + "    local args_ptr = ffi.cast(\"const void*\", "@ + n + "_val)\n"@,
                None => acc + "    local args_ptr = ffi.cast(\"const void*\", "@ + n + " )\n"@,
            },
            _ => acc + "    local "@ + n + "_val = ffi.new(\""@ + lua_type(params[0].ty) + "[1]\", "@ + n + ")\n"@
                + "    local args_ptr = ffi.cast(\"const void*\", "@ + n + "_val)\n"@,
        }
    } else {
        lua_pack_assignments(
            acc + "    local args_val = ffi.new(\""@ + lua_arg_pack_struct(lua_contract_struct(contract_prefix), func.name@)
                + "\")\n"@,
            params,
        ) + "    local args_ptr = ffi.cast(\"const void*\", args_val)\n"@
    }
}

fn push_pack_assignments(out: &mut String, params: &Vec<ResolvedParam>)
    ensures
        final(out)@ == lua_pack_assignments(old(out)@, params@),
{
    let n: usize = params.len();
    let mut i: usize = 0;
    while i < n
        invariant
            n == params@.len(),
            i <= n,
            out@ == lua_pack_assignments(old(out)@, params@.take(i as int)),
        decreases n - i,
    {
        out.append("    args_val.");
        out.append(params[i].name.as_str());
        out.append(" = ");
        out.append(params[i].name.as_str());
        out.append("\n");
        assert(params@.take(i + 1).drop_last() =~= params@.take(i as int));
        i = i + 1;
    }
    assert(params@.take(n as int) =~= params@);
}

/// Emit the `args_ptr` setup of a host caller method.
pub fn emit_lua_host_args_setup(out: &mut String, func: &ResolvedFunction, contract_prefix: &str, enums: &[EnumDef])
    ensures
        final(out)@ == lua_host_args(old(out)@, *func, contract_prefix@, enums@),
{
    if func.params.len() == 0 {
        out.append("    local args_ptr = nil\n");
        return;
    }
    if func.params.len() == 1 {
        let param: &ResolvedParam = &func.params[0];
        let name: &str = param.name.as_str();
        match &param.ty {
            ResolvedTypeRef::AbiType(AbiBuiltin::StringView) => {
                out.append("    local ");
                out.append(name);
                out.append("_bytes = tostring(");
                out.append(name);
                out.append(")\n");
                out.append("    local ");
                out.append(name);
                out.append("_view = ffi.new(\"StringView\")\n");
                out.append("    ");
                out.append(name);
                out.append("_view.ptr = ffi.cast(\"const uint8_t*\", ");
                out.append(name);
                out.append("_bytes)\n");
                out.append("    ");
                out.append(name);
                out.append("_view.len = #");
                out.append(name);
                out.append("_bytes\n");
                out.append("    local args_ptr = ffi.cast(\"const void*\", ");
                out.append(name);
                out.append("_view)\n");
            },
            ResolvedTypeRef::AbiType(AbiBuiltin::Buffer) => {
                out.append("    local ");
                out.append(name);
                out.append("_bytes = tostring(");
                out.append(name);
                out.append(")\n");
                out.append("    local ");
                out.append(name);
                out.append("_buf = ffi.new(\"Buffer\")\n");
                out.append("    ");
                out.append(name);
                out.append("_buf.ptr = ffi.cast(\"void*\", ");
                out.append(name);
                out.append("_bytes)\n");
                out.append("    ");
                out.append(name);
                out.append("_buf.len = #");
                out.append(name);
                out.append("_bytes\n");
                out.append("    local args_ptr = ffi.cast(\"const void*\", ");
                out.append(name);
                out.append("_buf)\n");
            },
            ResolvedTypeRef::UserDefined(_) => {
                match lua_enum_repr_c_type(&param.ty, enums) {
                    Some(repr) => {
                        out.append("    local ");
                        out.append(name);
                        out.append("_val = ffi.new(\"");
                        out.append(repr.as_str());
                        out.append("[1]\", ");
                        out.append(name);
                        out.append(")\n");
                        out.append("    local args_ptr = ffi.cast(\"const void*\", ");
                        out.append(name);
                        out.append("_val)\n");
                    },
                    None => {
                        out.append("    local args_ptr = ffi.cast(\"const void*\", ");
                        out.append(name);
                        out.append(" )\n");
                    },
                }
            },
            _ => {
                let ty_name: String = lua_type_name(&param.ty);
                out.append("    local ");
                out.append(name);
                out.append("_val = ffi.new(\"");
                out.append(ty_name.as_str());
                out.append("[1]\", ");
                out.append(name);
                out.append(")\n");
                out.append("    local args_ptr = ffi.cast(\"const void*\", ");
                out.append(name);
                out.append("_val)\n");
            },
        }
        return;
    }
    let contract_struct: String = contract_name_to_struct(contract_prefix);
    let pack_struct: String = arg_pack_struct_name(contract_struct.as_str(), func.name.as_str());
    out.append("    local args_val = ffi.new(\"");
    out.append(pack_struct.as_str());
    out.append("\")\n");
    push_pack_assignments(out, &func.params);
    out.append("    local args_ptr = ffi.cast(\"const void*\", args_val)\n");
}

/// How a host caller prepares the slot the result is written to.
pub open spec fn lua_host_out(acc: Seq<char>, ret: Option<ResolvedTypeRef>, enums: Seq<EnumDef>) -> Seq<char> {
    if !returns_value(ret) {
        acc + "    local out_ptr = nil\n"@
    } else {
        let t = ret->0;
        match enum_repr_ctype(t, enums) {
            Some(repr) => acc + "    local out_val = ffi.new(\""@ + repr + "[1]\")\n"@
                + "    local out_ptr = ffi.cast(\"void*\", out_val)\n"@,
            None => if is_scalar_return(t) {
                acc + "    local out_val = ffi.new(\""@ + lua_type(t) + "[1]\")\n"@
                    + "    local out_ptr = ffi.cast(\"void*\", out_val)\n"@
            } else {
                acc + "    local out_val = ffi.new(\""@ + lua_type(t) + "\")\n"@
                    + "    local out_ptr = ffi.cast(\"void*\", out_val)\n"@
            },
        }
    }
}

/// Emit the `out_ptr` setup of a host caller method.
pub fn emit_lua_host_out_setup(out: &mut String, ret: &Option<ResolvedTypeRef>, enums: &[EnumDef])
    ensures
        final(out)@ == lua_host_out(old(out)@, *ret, enums@),
{
    if !has_return_value(ret) {
        out.append("    local out_ptr = nil\n");
        return;
    }
    let t: &ResolvedTypeRef = match ret {
        Some(t) => t,
        None => {
            return;
        },
    };
    match lua_enum_repr_c_type(t, enums) {
        Some(repr) => {
            out.append("    local out_val = ffi.new(\"");
            out.append(repr.as_str());
            out.append("[1]\")\n");
            out.append("    local out_ptr = ffi.cast(\"void*\", out_val)\n");
        },
        None => {
            let ret_ty: String = lua_type_name(t);
            if lua_return_is_scalar(t) {
                out.append("    local out_val = ffi.new(\"");
                out.append(ret_ty.as_str());
                out.append("[1]\")\n");
            } else {
                out.append("    local out_val = ffi.new(\"");
                out.append(ret_ty.as_str());
                out.append("\")\n");
            }
            out.append("    local out_ptr = ffi.cast(\"void*\", out_val)\n");
        },
    }
}

/// The dispatch part of a host caller method, after args and out setup.
pub const LUA_HOST_CALL_DISPATCH: &'static str = "        local err\n        if self._interface.dispatch_type == 0 then\n";

/// The validity check at the top of a host caller method.
pub const LUA_HOST_CALL_GUARD: &'static str = "        if self._interface == nil or self._destroyed then\n            error(\"invalid caller: interface is nil\", 2)\n        end\n";

/// The native call and the VM branch opener of a host caller method.
pub const LUA_HOST_CALL_NATIVE: &'static str = "            local fn = ffi.cast(NativeDispatchFnType, fn_ptr)\n            err = fn(self._instance, args_ptr, out_ptr)\n        else\n";

/// The error check after a host caller's dispatch.
pub const LUA_HOST_CALL_CHECK: &'static str = "        end\n        if err.code ~= AbiErrorCode.Ok then\n            error(\"polyplug call failed (code \" .. tonumber(err.code) .. \")\", 2)\n        end\n";

/// One method of a host caller (instance-based).
pub open spec fn lua_host_caller_method(acc: Seq<char>, func: ResolvedFunction, contract_prefix: Seq<char>, enums: Seq<EnumDef>) -> Seq<char> {
    let id = dec_digits(func.function_id as nat);
    let body = lua_host_out(
        lua_host_args(
            acc + "    "@ + func.name@ + " = function(self"@ + lua_sig_params(func.params@) + ")\n"@ + LUA_HOST_CALL_GUARD@,
            func,
            contract_prefix,
            enums,
        ),
        func.returns,
        enums,
    ) + LUA_HOST_CALL_DISPATCH@ + "            if "@ + id + " >= self._interface.dispatch.native.function_count then\n"@
        + "                error(\"function not available in interface\", 2)\n            end\n"@
        + "            local fn_ptr = self._interface.dispatch.native.functions["@ + id + "]\n"@ + LUA_HOST_CALL_NATIVE@
        + "            err = self._interface.dispatch.vm.call(self._interface.dispatch.vm.loader_data, self._instance, "@ + id
        + ", args_ptr, out_ptr, nil)\n"@ + LUA_HOST_CALL_CHECK@;
    if returns_value(func.returns) {
        body + "        return "@ + lua_return(func.returns, enums) + "\n"@ + "    end"@
    } else {
        body + "        return nil\n"@ + "    end"@
    }
}

/// Generate a single caller method for a contract function (instance-based).
pub fn generate_host_caller_method(
    out: &mut String,
    func: &ResolvedFunction,
    contract_prefix: &str,
    contract_struct: &str,
    enums: &[EnumDef],
)
    ensures
        final(out)@ == lua_host_caller_method(old(out)@, *func, contract_prefix@, enums@),
{
    let _ = contract_struct;
    let sig_params: String = build_lua_sig_params(func);
    out.append("    ");
    out.append(func.name.as_str());
    out.append(" = function(self");
    out.append(sig_params.as_str());
    out.append(")\n");
    out.append(LUA_HOST_CALL_GUARD);
    emit_lua_host_args_setup(out, func, contract_prefix, enums);
    emit_lua_host_out_setup(out, &func.returns, enums);
    out.append(LUA_HOST_CALL_DISPATCH);
    out.append("            if ");
    push_u32(out, func.function_id);
    out.append(" >= self._interface.dispatch.native.function_count then\n");
    out.append("                error(\"function not available in interface\", 2)\n            end\n");
    out.append("            local fn_ptr = self._interface.dispatch.native.functions[");
    push_u32(out, func.function_id);
    out.append("]\n");
    out.append(LUA_HOST_CALL_NATIVE);
    out.append("            err = self._interface.dispatch.vm.call(self._interface.dispatch.vm.loader_data, self._instance, ");
    push_u32(out, func.function_id);
    out.append(", args_ptr, out_ptr, nil)\n");
    out.append(LUA_HOST_CALL_CHECK);
    if has_return_value(&func.returns) {
        let expr: String = lua_return_expr(&func.returns, enums);
        out.append("        return ");
        out.append(expr.as_str());
        out.append("\n");
    } else {
        out.append("        return nil\n");
    }
    out.append("    end");
}

/// The lifecycle methods every host caller's methods table starts with.
pub const LUA_HOST_CALLER_LIFECYCLE: &'static str = "    is_valid = function(self)\n        return self._interface ~= nil and not self._destroyed\n    end,\n\n    destroy = function(self)\n        if self._interface ~= nil and not self._destroyed then\n            self._interface.destroy_instance(self._host, self._instance)\n            self._destroyed = true\n        end\n    end,\n\n    reset = function(self)\n        self:destroy()\n        if self._interface ~= nil then\n            self._instance = self._interface.create_instance(self._host, nil)\n            self._destroyed = false\n        end\n    end,\n\n";

/// The body of a host caller's factory between the handle lookup and the metatable.
pub const LUA_HOST_CALLER_FACTORY: &'static str = "    -- The handle is opaque: pass it straight to resolve_guest_contract,\n    -- which returns nil for an out-of-bounds, empty, or stale handle.\n    local interface = runtime:resolve_guest_contract(handle)\n    if interface == nil then\n        return nil\n    end\n    -- A null `instance.data` is valid: stateless contracts (and all VM-dispatch\n    -- guests) return a null handle from create_instance and use it as an opaque\n    -- dispatch token. Validity is keyed off the interface pointer, not the instance.\n    local instance = interface.create_instance(host, nil)\n    local wrapper = {\n        _interface = interface,\n        _instance = instance,\n        _host = host,\n        _destroyed = false\n    }\n";

/// The upper-case constant stem of a contract: `image.decode` -> `IMAGE_DECODE`.
pub open spec fn lua_contract_upper(name: Seq<char>) -> Seq<char> {
    replace_chars(upper_str(name), seq!['.', '-'], '_')
}

/// Builds `lua_contract_upper(name)`.
pub fn contract_upper_name(name: &str) -> (r: String)
    ensures
        r@ == lua_contract_upper(name@),
{
    let upper: String = to_uppercase(name);
    dots_dashes_to_underscores(upper.as_str())
}

/// Caller methods for every function of a guest contract, each followed by `,\n\n`.
pub open spec fn lua_host_caller_methods(acc: Seq<char>, funcs: Seq<ResolvedFunction>, prefix: Seq<char>, enums: Seq<EnumDef>) -> Seq<char>
    decreases funcs.len(),
{
    if funcs.len() == 0 {
        acc
    } else {
        lua_host_caller_method(lua_host_caller_methods(acc, funcs.drop_last(), prefix, enums), funcs.last(), prefix, enums)
            + ",\n\n"@
    }
}

/// The host caller of a guest contract: methods table, metatable with
/// `__gc`, and factory.
pub open spec fn lua_host_caller(acc: Seq<char>, contract: ResolvedContract, enums: Seq<EnumDef>) -> Seq<char> {
    let st = lua_contract_struct(contract.name@);
    let id_const = lua_contract_upper(contract.name@) + "_CONTRACT_ID"@;
    let prefix = replace_chars(contract.name@, seq!['.'], '_');
    lua_host_caller_methods(
        acc + "-- Methods for "@ + st + " (instance wrapper)\n"@ + "local "@ + st + "_methods = {\n"@
            + LUA_HOST_CALLER_LIFECYCLE@,
        contract.functions@,
        prefix,
        enums,
    ) + "}\n\n"@ + "-- Metatable for "@ + st + " with __gc cleanup\n"@ + "local "@ + st + "_mt = {\n"@
        + "    __index = "@ + st + "_methods,\n"@ + "    __gc = function(self) self:destroy() end\n}\n\n"@
        + "-- Factory function for "@ + st + " (instance wrapper)\n"@ + "function M."@ + st
        + "_create(runtime, host)\n"@ + "    local handle = runtime:find_guest_contract("@ + id_const + ", 0)\n"@
        + LUA_HOST_CALLER_FACTORY@ + "    setmetatable(wrapper, "@ + st + "_mt)\n"@ + "    return wrapper\nend\n"@
}

/// Generate the full host caller for a contract with the instance-based
/// RAII pattern: methods table, metatable with `__gc`, factory function.
pub fn generate_host_contract_caller(out: &mut String, contract: &ResolvedContract, enums: &[EnumDef])
    ensures
        final(out)@ == lua_host_caller(old(out)@, *contract, enums@),
{
    let contract_prefix: String = contract_name_to_prefix(contract.name.as_str());
    let contract_struct: String = contract_name_to_struct(contract.name.as_str());
    let mut contract_id_const: String = contract_upper_name(contract.name.as_str());
    contract_id_const.append("_CONTRACT_ID");
    out.append("-- Methods for ");
    out.append(contract_struct.as_str());
    out.append(" (instance wrapper)\n");
    out.append("local ");
    out.append(contract_struct.as_str());
    out.append("_methods = {\n");
    out.append(LUA_HOST_CALLER_LIFECYCLE);
    let ghost start = out@;
    let n: usize = contract.functions.len();
    let mut i: usize = 0;
    while i < n
        invariant
            n == contract.functions@.len(),
            i <= n,
            contract_prefix@ == replace_chars(contract.name@, seq!['.'], '_'),
            out@ == lua_host_caller_methods(start, contract.functions@.take(i as int), contract_prefix@, enums@),
        decreases n - i,
    {
        generate_host_caller_method(
            out,
            &contract.functions[i],
            contract_prefix.as_str(),
            contract_struct.as_str(),
            enums,
        );
        out.append(",\n\n");
        assert(contract.functions@.take(i + 1).drop_last() =~= contract.functions@.take(i as int));
        i = i + 1;
    }
    assert(contract.functions@.take(n as int) =~= contract.functions@);
    out.append("}\n\n");
    out.append("-- Metatable for ");
    out.append(contract_struct.as_str());
    out.append(" with __gc cleanup\n");
    out.append("local ");
    out.append(contract_struct.as_str());
    out.append("_mt = {\n");
    out.append("    __index = ");
    out.append(contract_struct.as_str());
    out.append("_methods,\n");
    out.append("    __gc = function(self) self:destroy() end\n}\n\n");
    out.append("-- Factory function for ");
    out.append(contract_struct.as_str());
    out.append(" (instance wrapper)\n");
    out.append("function M.");
    out.append(contract_struct.as_str());
    out.append("_create(runtime, host)\n");
    out.append("    local handle = runtime:find_guest_contract(");
    out.append(contract_id_const.as_str());
    out.append(", 0)\n");
    out.append(LUA_HOST_CALLER_FACTORY);
    out.append("    setmetatable(wrapper, ");
    out.append(contract_struct.as_str());
    out.append("_mt)\n");
    out.append("    return wrapper\nend\n");
}

// ─── Guest callers of host contracts, peer callers ──────────────────────────

/// Per-parameter packing for a guest-side caller's argument-pack struct.
pub open spec fn lua_guest_pack_fields(acc: Seq<char>, params: Seq<ResolvedParam>) -> Seq<char>
    decreases params.len(),
{
    if params.len() == 0 {
        acc
    } else {
        let prev = lua_guest_pack_fields(acc, params.drop_last());
        let n = params.last().name@;
        match params.last().ty {
            ResolvedTypeRef::AbiType(AbiBuiltin::StringView) => prev + "    local "@ + n + "_bytes = tostring("@ + n
                + ")\n"@ + "    args_val."@ + n + ".ptr = ffi.cast(\"const char*\", "@ + n + "_bytes)\n"@
                + "    args_val."@ + n + ".len = #"@ + n + "_bytes\n"@,
            ResolvedTypeRef::AbiType(AbiBuiltin::Buffer) => prev + "    args_val."@ + n
                + ".ptr = ffi.cast(\"void*\", "@ + n + ")\n"@ + "    args_val."@ + n + ".len = #"@ + n + "\n"@,
            _ => prev + "    args_val."@ + n + " = "@ + n + "\n"@,
        }
    }
}

/// How a guest-side caller (of a host contract or a peer) builds `args_ptr`.
pub open spec fn lua_guest_args(acc: Seq<char>, func: ResolvedFunction, pack_prefix: Seq<char>, enums: Seq<EnumDef>) -> Seq<char> {
    let params = func.params@;
    if params.len() == 0 {
        acc + "    local args_ptr = nil\n"@
    } else if params.len() == 1 {
        let n = params[0].name@;
        match params[0].ty {
            ResolvedTypeRef::AbiType(AbiBuiltin::StringView) => acc + "    local "@ + n + "_bytes = tostring("@ + n
                + ")\n"@ + "    local "@ + n + "_view = ffi.new(\"StringView\")\n"@ + "    "@ + n
                + "_view.ptr = ffi.cast(\"const char*\", "@ + n + "_bytes)\n"@ + "    "@ + n + "_view.len = #"@ + n
                + "_bytes\n"@ + "    local args_ptr = ffi.cast(\"const void*\", "@ + n + "_view)\n"@,
            ResolvedTypeRef::AbiType(AbiBuiltin::Buffer) => acc + "    local "@ + n + "_buf = ffi.new(\"Buffer\")\n"@
                + "    "@ + n + "_buf.ptr = ffi.cast(\"void*\", "@ + n + ")\n"@ + "    "@ + n + "_buf.len = #"@ + n
                + "\n"@ + "    local args_ptr = ffi.cast(\"const void*\", "@ + n + "_buf)\n"@,
            ResolvedTypeRef::UserDefined(_) => match enum_repr_ctype(params[0].ty, enums) {
                Some(repr) => acc + "    local "@ + n + "_val = ffi.new(\""@ + repr + "[1]\", "@ + n + ")\n"@
                    + "    local args_ptr = ffi.cast(\"const void*\", "@ + n + "_val)\n"@,
                None => acc + "    local args_ptr = ffi.cast(\"const void*\", "@ + n + ")\n"@,
            },
            _ => acc + "    local "@ + n + "_val = ffi.new(\""@ + lua_type(params[0].ty) + "[1]\", "@ + n + ")\n"@
                + "    local args_ptr = ffi.cast(\"const void*\", "@ + n + "_val)\n"@,
        }
    } else {
        lua_guest_pack_fields(
            acc + "    local args_val = ffi.new(\""@ + lua_arg_pack_struct(pack_prefix, func.name@) + "\")\n"@,
            params,
        ) + "    local args_ptr = ffi.cast(\"const void*\", args_val)\n"@
    }
}

fn push_guest_pack_fields(out: &mut String, params: &Vec<ResolvedParam>)
    ensures
        final(out)@ == lua_guest_pack_fields(old(out)@, params@),
{
    let n: usize = params.len();
    let mut i: usize = 0;
    while i < n
        invariant
            n == params@.len(),
            i <= n,
            out@ == lua_guest_pack_fields(old(out)@, params@.take(i as int)),
        decreases n - i,
    {
        let name: &str = params[i].name.as_str();
        match &params[i].ty {
            ResolvedTypeRef::AbiType(AbiBuiltin::StringView) => {
                out.append("    local ");
                out.append(name);
                out.append("_bytes = tostring(");
                out.append(name);
                out.append(")\n");
                out.append("    args_val.");
                out.append(name);
                out.append(".ptr = ffi.cast(\"const char*\", ");
                out.append(name);
                out.append("_bytes)\n");
                out.append("    args_val.");
                out.append(name);
                out.append(".len = #");
                out.append(name);
                out.append("_bytes\n");
            },
            ResolvedTypeRef::AbiType(AbiBuiltin::Buffer) => {
                out.append("    args_val.");
                out.append(name);
                out.append(".ptr = ffi.cast(\"void*\", ");
                out.append(name);
                out.append(")\n");
                out.append("    args_val.");
                out.append(name);
                out.append(".len = #");
                out.append(name);
                out.append("\n");
            },
            _ => {
                out.append("    args_val.");
                out.append(name);
                out.append(" = ");
                out.append(name);
                out.append("\n");
            },
        }
        assert(params@.take(i + 1).drop_last() =~= params@.take(i as int));
        i = i + 1;
    }
    assert(params@.take(n as int) =~= params@);
}

/// Emit the `args_ptr` setup of a guest-side caller method; `pack_prefix`
/// names the class owning the argument-pack struct of multi-parameter functions.
pub fn emit_lua_guest_host_contract_args_setup(
    out: &mut String,
    func: &ResolvedFunction,
    pack_prefix: &str,
    enums: &[EnumDef],
)
    ensures
        final(out)@ == lua_guest_args(old(out)@, *func, pack_prefix@, enums@),
{
    if func.params.len() == 0 {
        out.append("    local args_ptr = nil\n");
        return;
    }
    if func.params.len() == 1 {
        let param: &ResolvedParam = &func.params[0];
        let name: &str = param.name.as_str();
        match &param.ty {
            ResolvedTypeRef::AbiType(AbiBuiltin::StringView) => {
                out.append("    local ");
                out.append(name);
                out.append("_bytes = tostring(");
                out.append(name);
                out.append(")\n");
                out.append("    local ");
                out.append(name);
                out.append("_view = ffi.new(\"StringView\")\n");
                out.append("    ");
                out.append(name);
                out.append("_view.ptr = ffi.cast(\"const char*\", ");
                out.append(name);
                out.append("_bytes)\n");
                out.append("    ");
                out.append(name);
                out.append("_view.len = #");
                out.append(name);
                out.append("_bytes\n");
                out.append("    local args_ptr = ffi.cast(\"const void*\", ");
                out.append(name);
                out.append("_view)\n");
            },
            ResolvedTypeRef::AbiType(AbiBuiltin::Buffer) => {
                out.append("    local ");
                out.append(name);
                out.append("_buf = ffi.new(\"Buffer\")\n");
                out.append("    ");
                out.append(name);
                out.append("_buf.ptr = ffi.cast(\"void*\", ");
                out.append(name);
                out.append(")\n");
                out.append("    ");
                out.append(name);
                out.append("_buf.len = #");
                out.append(name);
                out.append("\n");
                out.append("    local args_ptr = ffi.cast(\"const void*\", ");
                out.append(name);
                out.append("_buf)\n");
            },
            ResolvedTypeRef::UserDefined(_) => {
                match lua_enum_repr_c_type(&param.ty, enums) {
                    Some(repr) => {
                        out.append("    local ");
                        out.append(name);
                        out.append("_val = ffi.new(\"");
                        out.append(repr.as_str());
                        out.append("[1]\", ");
                        out.append(name);
                        out.append(")\n");
                        out.append("    local args_ptr = ffi.cast(\"const void*\", ");
                        out.append(name);
                        out.append("_val)\n");
                    },
                    None => {
                        out.append("    local args_ptr = ffi.cast(\"const void*\", ");
                        out.append(name);
                        out.append(")\n");
                    },
                }
            },
            _ => {
                let ty_name: String = lua_type_name(&param.ty);
                out.append("    local ");
                out.append(name);
                out.append("_val = ffi.new(\"");
                out.append(ty_name.as_str());
                out.append("[1]\", ");
                out.append(name);
                out.append(")\n");
                out.append("    local args_ptr = ffi.cast(\"const void*\", ");
                out.append(name);
                out.append("_val)\n");
            },
        }
        return;
    }
    let pack_struct: String = arg_pack_struct_name(pack_prefix, func.name.as_str());
    out.append("    local args_val = ffi.new(\"");
    out.append(pack_struct.as_str());
    out.append("\")\n");
    push_guest_pack_fields(out, &func.params);
    out.append("    local args_ptr = ffi.cast(\"const void*\", args_val)\n");
}

/// How a guest-side caller prepares the slot the result is written to.
pub open spec fn lua_guest_out(acc: Seq<char>, ret: Option<ResolvedTypeRef>, enums: Seq<EnumDef>) -> Seq<char> {
    match ret {
        Some(t) => {
            let slot = match enum_repr_ctype(t, enums) {
                Some(repr) => repr + "[1]"@,
                None => match t {
                    ResolvedTypeRef::AbiType(AbiBuiltin::StringView) => "StringView"@,
                    ResolvedTypeRef::AbiType(AbiBuiltin::Buffer) => "Buffer"@,
                    _ => if is_scalar_return(t) {
                        lua_type(t) + "[1]"@
                    } else {
                        lua_type(t)
                    },
                },
            };
            acc + "    local out_val = ffi.new(\""@ + slot + "\")\n"@ + "    local out_ptr = ffi.cast(\"void*\", out_val)\n"@
        },
        None => acc + "    local out_ptr = nil\n"@,
    }
}

/// Emit the `out_ptr` setup of a guest-side caller method.
pub fn emit_lua_guest_host_contract_out_setup(out: &mut String, ret: &Option<ResolvedTypeRef>, enums: &[EnumDef])
    ensures
        final(out)@ == lua_guest_out(old(out)@, *ret, enums@),
{
    match ret {
        Some(t) => {
            let mut slot: String = String::new();
            match lua_enum_repr_c_type(t, enums) {
                Some(repr) => {
                    slot.append(repr.as_str());
                    slot.append("[1]");
                },
                None => match t {
                    ResolvedTypeRef::AbiType(AbiBuiltin::StringView) => {
                        slot.append("StringView");
                    },
                    ResolvedTypeRef::AbiType(AbiBuiltin::Buffer) => {
                        slot.append("Buffer");
                    },
                    _ => {
                        let ty_name: String = lua_type_name(t);
                        slot.append(ty_name.as_str());
                        if lua_return_is_scalar(t) {
                            slot.append("[1]");
                        }
                    },
                },
            }
            out.append("    local out_val = ffi.new(\"");
            out.append(slot.as_str());
            out.append("\")\n");
            out.append("    local out_ptr = ffi.cast(\"void*\", out_val)\n");
        },
        None => {
            out.append("    local out_ptr = nil\n");
        },
    }
}

/// The early-exit statement of a guest-side caller method.
pub open spec fn lua_bail(has_return: bool) -> Seq<char> {
    if has_return {
        "return nil\n"@
    } else {
        "return\n"@
    }
}

fn bail_stmt(has_return: bool) -> (r: &'static str)
    ensures
        r@ == lua_bail(has_return),
{
    if has_return {
        "return nil\n"
    } else {
        "return\n"
    }
}

/// The native branch of a guest-side host contract call.
pub const LUA_GUEST_NATIVE_CALL: &'static str = "        local impl_ptr = nil\n        if self._instance ~= nil then impl_ptr = self._instance.data end\n        local fn = ffi.cast(DispatchFnType, fn_ptr)\n        err = fn(impl_ptr, args_ptr, out_ptr)\n    elseif dispatch_type == 1 then\n        local _null_instance = ffi.new(\"GuestContractInstance\")\n";

/// The method head shared by guest-side callers: signature, interface
/// check, and the cast of the stored interface.
pub open spec fn lua_guest_method_head(acc: Seq<char>, class: Seq<char>, func: ResolvedFunction, iface: Seq<char>) -> Seq<char> {
    let bail = lua_bail(func.returns is Some);
    acc + "function "@ + class + ":"@ + func.name@ + "("@ + join_param_names(func.params@) + ")\n"@
        + "    if self._interface == nil then\n"@ + "        "@ + bail + "    end\n"@
        + "    local interface = ffi.cast(\""@ + iface + "*\", self._interface)\n"@
        + "    local dispatch_type = interface.dispatch_type\n"@
}

fn push_guest_method_head(out: &mut String, class_name: &str, func: &ResolvedFunction, iface: &str)
    ensures
        final(out)@ == lua_guest_method_head(old(out)@, class_name@, *func, iface@),
{
    let has_return: bool = func.returns.is_some();
    out.append("function ");
    out.append(class_name);
    out.append(":");
    out.append(func.name.as_str());
    out.append("(");
    push_param_names(out, &func.params);
    out.append(")\n");
    out.append("    if self._interface == nil then\n");
    out.append("        ");
    out.append(bail_stmt(has_return));
    out.append("    end\n");
    out.append("    local interface = ffi.cast(\"");
    out.append(iface);
    out.append("*\", self._interface)\n");
    out.append("    local dispatch_type = interface.dispatch_type\n");
}

/// The tail shared by guest-side callers: error check and result.
pub open spec fn lua_guest_method_tail(acc: Seq<char>, func: ResolvedFunction, enums: Seq<EnumDef>) -> Seq<char> {
    let bail = lua_bail(func.returns is Some);
    let checked = acc + "    else\n"@ + "        "@ + bail + "    end\n"@ + "    if err.code ~= 0 then\n"@ + "        "@ + bail
        + "    end\n"@;
    if func.returns is Some {
        checked + "    return "@ + lua_return(func.returns, enums) + "\n"@ + "end\n\n"@
    } else {
        checked + "end\n\n"@
    }
}

fn push_guest_method_tail(out: &mut String, func: &ResolvedFunction, enums: &[EnumDef])
    ensures
        final(out)@ == lua_guest_method_tail(old(out)@, *func, enums@),
{
    let has_return: bool = func.returns.is_some();
    out.append("    else\n");
    out.append("        ");
    out.append(bail_stmt(has_return));
    out.append("    end\n");
    out.append("    if err.code ~= 0 then\n");
    out.append("        ");
    out.append(bail_stmt(has_return));
    out.append("    end\n");
    if has_return {
        let expr: String = lua_return_expr(&func.returns, enums);
        out.append("    return ");
        out.append(expr.as_str());
        out.append("\n");
    }
    out.append("end\n\n");
}

/// One method of a guest-side host contract caller.
pub open spec fn lua_guest_host_method(acc: Seq<char>, func: ResolvedFunction, class: Seq<char>, enums: Seq<EnumDef>) -> Seq<char> {
    let id = dec_digits(func.function_id as nat);
    let bail = lua_bail(func.returns is Some);
    lua_guest_method_tail(
        lua_guest_out(
            lua_guest_args(lua_guest_method_head(acc, class, func, "HostContractInterface"@), func, class, enums),
            func.returns,
            enums,
        ) + "    local err\n"@ + "    if dispatch_type == 0 then\n"@ + "        if "@ + id
            + " >= interface.dispatch.native.function_count then\n"@ + "            "@ + bail + "        end\n"@
            + "        local fn_ptr = interface.dispatch.native.functions["@ + id + "]\n"@ + LUA_GUEST_NATIVE_CALL@
            + "        err = interface.dispatch.vm.call(interface.dispatch.vm.loader_data, _null_instance, "@ + id
            + ", args_ptr, out_ptr, nil)\n"@,
        func,
        enums,
    )
}

/// Generate one method for a guest-side host contract caller.
pub fn generate_lua_guest_host_contract_method(out: &mut String, func: &ResolvedFunction, class_name: &str, enums: &[EnumDef])
    ensures
        final(out)@ == lua_guest_host_method(old(out)@, *func, class_name@, enums@),
{
    let has_return: bool = func.returns.is_some();
    push_guest_method_head(out, class_name, func, "HostContractInterface");
    emit_lua_guest_host_contract_args_setup(out, func, class_name, enums);
    emit_lua_guest_host_contract_out_setup(out, &func.returns, enums);
    out.append("    local err\n");
    out.append("    if dispatch_type == 0 then\n");
    out.append("        if ");
    push_u32(out, func.function_id);
    out.append(" >= interface.dispatch.native.function_count then\n");
    out.append("            ");
    out.append(bail_stmt(has_return));
    out.append("        end\n");
    out.append("        local fn_ptr = interface.dispatch.native.functions[");
    push_u32(out, func.function_id);
    out.append("]\n");
    out.append(LUA_GUEST_NATIVE_CALL);
    out.append("        err = interface.dispatch.vm.call(interface.dispatch.vm.loader_data, _null_instance, ");
    push_u32(out, func.function_id);
    out.append(", args_ptr, out_ptr, nil)\n");
    push_guest_method_tail(out, func, enums);
}

/// Methods for every function, in order.
pub open spec fn lua_guest_host_methods(acc: Seq<char>, funcs: Seq<ResolvedFunction>, class: Seq<char>, enums: Seq<EnumDef>) -> Seq<char>
    decreases funcs.len(),
{
    if funcs.len() == 0 {
        acc
    } else {
        lua_guest_host_method(lua_guest_host_methods(acc, funcs.drop_last(), class, enums), funcs.last(), class, enums)
    }
}

/// The body of a guest-side constructor.
pub const LUA_GUEST_NEW_BODY: &'static str = "    local obj = { _interface = interface, _instance = instance }\n    setmetatable(obj, self)\n    return obj\nend\n\n";

/// The start of `from_host`, up to the interface lookup.
pub const LUA_FROM_HOST_START: &'static str = "    if min_version == nil then min_version = 0 end\n    if host_ptr == nil then\n        return nil\n    end\n    local host = ffi.cast(\"HostApi*\", ffi.cast(\"uintptr_t\", host_ptr))\n";

/// The nil check after the interface lookup.
pub const LUA_NIL_INTERFACE_PTR: &'static str = "    if interface_ptr == nil then\n        return nil\n    end\n";

/// The body of `is_valid`.
pub const LUA_IS_VALID_BODY: &'static str = "    return self._interface ~= nil\nend\n\n";

/// The guest-side caller class of one host contract.
pub open spec fn lua_guest_host_caller(acc: Seq<char>, contract: ResolvedHostContract, enums: Seq<EnumDef>) -> Seq<char> {
    let c = lua_host_caller_class(contract.name@);
    let id = hex_digits(contract.contract_id as nat, 16);
    lua_guest_host_methods(
        acc + "-- Guest caller for host contract `"@ + contract.name@ + "` (id=0x"@ + id + ")\n"@ + c + " = {}\n"@ + c
            + ".__index = "@ + c + "\n\n"@ + "function "@ + c + ":new(interface, instance)\n"@ + LUA_GUEST_NEW_BODY@
            + "function "@ + c + ".from_host(host_ptr, min_version)\n"@ + LUA_FROM_HOST_START@
            + "    local interface_ptr = host.resolve_host_contract_interface(host, 0x"@ + id + "ULL, min_version)\n"@
            + LUA_NIL_INTERFACE_PTR@ + "    local instance = host.get_host_contract(host, 0x"@ + id
            + "ULL, min_version)\n"@ + "    return "@ + c + ":new(interface_ptr, instance)\n"@ + "end\n\n"@
            + "function "@ + c + ":is_valid()\n"@ + LUA_IS_VALID_BODY@,
        contract.functions@,
        c,
        enums,
    ) + "\n"@
}

/// Generate one guest-side host contract caller class.
pub fn generate_lua_guest_host_contract_caller(out: &mut String, contract: &ResolvedHostContract, enums: &[EnumDef])
    ensures
        final(out)@ == lua_guest_host_caller(old(out)@, *contract, enums@),
{
    let class_name: String = host_contract_name_to_lua_caller(contract.name.as_str());
    let c: &str = class_name.as_str();
    out.append("-- Guest caller for host contract `");
    out.append(contract.name.as_str());
    out.append("` (id=0x");
    push_hex16(out, contract.contract_id);
    out.append(")\n");
    out.append(c);
    out.append(" = {}\n");
    out.append(c);
    out.append(".__index = ");
    out.append(c);
    out.append("\n\n");
    out.append("function ");
    out.append(c);
    out.append(":new(interface, instance)\n");
    out.append(LUA_GUEST_NEW_BODY);
    out.append("function ");
    out.append(c);
    out.append(".from_host(host_ptr, min_version)\n");
    out.append(LUA_FROM_HOST_START);
    out.append("    local interface_ptr = host.resolve_host_contract_interface(host, 0x");
    push_hex16(out, contract.contract_id);
    out.append("ULL, min_version)\n");
    out.append(LUA_NIL_INTERFACE_PTR);
    out.append("    local instance = host.get_host_contract(host, 0x");
    push_hex16(out, contract.contract_id);
    out.append("ULL, min_version)\n");
    out.append("    return ");
    out.append(c);
    out.append(":new(interface_ptr, instance)\n");
    out.append("end\n\n");
    out.append("function ");
    out.append(c);
    out.append(":is_valid()\n");
    out.append(LUA_IS_VALID_BODY);
    let ghost start = out@;
    let n: usize = contract.functions.len();
    let mut i: usize = 0;
    while i < n
        invariant
            n == contract.functions@.len(),
            i <= n,
            c@ == lua_host_caller_class(contract.name@),
            out@ == lua_guest_host_methods(start, contract.functions@.take(i as int), c@, enums@),
        decreases n - i,
    {
        generate_lua_guest_host_contract_method(out, &contract.functions[i], c, enums);
        assert(contract.functions@.take(i + 1).drop_last() =~= contract.functions@.take(i as int));
        i = i + 1;
    }
    assert(contract.functions@.take(n as int) =~= contract.functions@);
    out.append("\n");
}

/// One method of a guest-side peer caller: both dispatch kinds go through
/// the host-mediated `call_guest_method`.
pub open spec fn lua_peer_method(acc: Seq<char>, func: ResolvedFunction, class: Seq<char>, enums: Seq<EnumDef>) -> Seq<char> {
    let id = dec_digits(func.function_id as nat);
    let bail = lua_bail(func.returns is Some);
    let call = "        err = self._host.call_guest_method(self._host, self._instance, "@ + id
        + ", args_ptr, out_ptr, nil)\n"@;
    lua_guest_method_tail(
        lua_guest_out(
            lua_guest_args(lua_guest_method_head(acc, class, func, "GuestContractInterface"@), func, class, enums),
            func.returns,
            enums,
        ) + "    local err\n"@ + "    if dispatch_type == 0 then\n"@ + "        if "@ + id
            + " >= interface.dispatch.native.function_count then\n"@ + "            "@ + bail + "        end\n"@ + call
            + "    elseif dispatch_type == 1 then\n"@ + call,
        func,
        enums,
    )
}

fn push_peer_call(out: &mut String, function_id: u32)
    ensures
        final(out)@ == old(out)@ + ("        err = self._host.call_guest_method(self._host, self._instance, "@
            + dec_digits(function_id as nat) + ", args_ptr, out_ptr, nil)\n"@),
{
    let ghost before = out@;
    out.append("        err = self._host.call_guest_method(self._host, self._instance, ");
    push_u32(out, function_id);
    out.append(", args_ptr, out_ptr, nil)\n");
    assert(out@ =~= before + ("        err = self._host.call_guest_method(self._host, self._instance, "@
        + dec_digits(function_id as nat) + ", args_ptr, out_ptr, nil)\n"@));
}

/// Generate one method on a guest peer caller class.
pub fn generate_lua_guest_peer_method(out: &mut String, func: &ResolvedFunction, class_name: &str, enums: &[EnumDef])
    ensures
        final(out)@ == lua_peer_method(old(out)@, *func, class_name@, enums@),
{
    let has_return: bool = func.returns.is_some();
    push_guest_method_head(out, class_name, func, "GuestContractInterface");
    emit_lua_guest_host_contract_args_setup(out, func, class_name, enums);
    emit_lua_guest_host_contract_out_setup(out, &func.returns, enums);
    out.append("    local err\n");
    out.append("    if dispatch_type == 0 then\n");
    out.append("        if ");
    push_u32(out, func.function_id);
    out.append(" >= interface.dispatch.native.function_count then\n");
    out.append("            ");
    out.append(bail_stmt(has_return));
    out.append("        end\n");
    push_peer_call(out, func.function_id);
    out.append("    elseif dispatch_type == 1 then\n");
    push_peer_call(out, func.function_id);
    push_guest_method_tail(out, func, enums);
}

/// Peer methods for every function, in order.
pub open spec fn lua_peer_methods(acc: Seq<char>, funcs: Seq<ResolvedFunction>, class: Seq<char>, enums: Seq<EnumDef>) -> Seq<char>
    decreases funcs.len(),
{
    if funcs.len() == 0 {
        acc
    } else {
        lua_peer_method(lua_peer_methods(acc, funcs.drop_last(), class, enums), funcs.last(), class, enums)
    }
}

/// The body of a peer caller's constructor.
pub const LUA_PEER_NEW_BODY: &'static str = "    local obj = { _interface = interface, _instance = instance, _host = host }\n    setmetatable(obj, self)\n    return obj\nend\n\n";

/// The start of a peer caller's `resolve`, up to the handle lookup.
pub const LUA_PEER_RESOLVE_START: &'static str = "    local host_ptr = polyplug_guest.get_host_interface()\n    if host_ptr == nil then\n        return nil\n    end\n    local host = ffi.cast(\"HostApi*\", ffi.cast(\"uintptr_t\", host_ptr))\n";

/// A peer caller's `resolve` between the handle lookup and the id stamp.
pub const LUA_PEER_RESOLVE_MIDDLE: &'static str = "    local interface = host.resolve_guest_contract(host, handle)\n    if interface == nil then\n        return nil\n    end\n    local instance = interface.create_instance(host, nil)\n    -- Stamp the peer contract id so call_guest_method routes by it even when a\n    -- stateless peer's create_instance returns a null (null-id) handle.\n";

/// The guest-side peer caller class of one guest contract.
pub open spec fn lua_peer_caller(acc: Seq<char>, contract: ResolvedContract, min_version: u32, enums: Seq<EnumDef>) -> Seq<char> {
    let c = lua_peer_class(contract.name@);
    let id = hex_digits(contract.contract_id as nat, 16);
    lua_peer_methods(
        acc + "-- Peer caller for guest contract `"@ + contract.name@ + "` (id=0x"@ + id + ")\n"@ + c + " = {}\n"@ + c
            + ".__index = "@ + c + "\n\n"@ + "function "@ + c + ":new(interface, instance, host)\n"@
            + LUA_PEER_NEW_BODY@ + "function "@ + c + ".resolve()\n"@ + LUA_PEER_RESOLVE_START@
            + "    local handle = host.find_guest_contract(host, 0x"@ + id + "ULL, "@ + dec_digits(min_version as nat)
            + ")\n"@ + LUA_PEER_RESOLVE_MIDDLE@ + "    instance.contract_id = 0x"@ + id + "ULL\n"@ + "    return "@
            + c + ":new(interface, instance, host)\n"@ + "end\n\n"@ + "function "@ + c + ":is_valid()\n"@
            + LUA_IS_VALID_BODY@,
        contract.functions@,
        c,
        enums,
    ) + "\n"@
}

/// Generate one guest-side peer caller class for `contract`.
pub fn generate_lua_guest_peer_caller(out: &mut String, contract: &ResolvedContract, min_version: u32, enums: &[EnumDef])
    ensures
        final(out)@ == lua_peer_caller(old(out)@, *contract, min_version, enums@),
{
    let class_name: String = contract_name_to_lua_peer_class(contract.name.as_str());
    let c: &str = class_name.as_str();
    out.append("-- Peer caller for guest contract `");
    out.append(contract.name.as_str());
    out.append("` (id=0x");
    push_hex16(out, contract.contract_id);
    out.append(")\n");
    out.append(c);
    out.append(" = {}\n");
    out.append(c);
    out.append(".__index = ");
    out.append(c);
    out.append("\n\n");
    out.append("function ");
    out.append(c);
    out.append(":new(interface, instance, host)\n");
    out.append(LUA_PEER_NEW_BODY);
    out.append("function ");
    out.append(c);
    out.append(".resolve()\n");
    out.append(LUA_PEER_RESOLVE_START);
    out.append("    local handle = host.find_guest_contract(host, 0x");
    push_hex16(out, contract.contract_id);
    out.append("ULL, ");
    push_u32(out, min_version);
    out.append(")\n");
    out.append(LUA_PEER_RESOLVE_MIDDLE);
    out.append("    instance.contract_id = 0x");
    push_hex16(out, contract.contract_id);
    out.append("ULL\n");
    out.append("    return ");
    out.append(c);
    out.append(":new(interface, instance, host)\n");
    out.append("end\n\n");
    out.append("function ");
    out.append(c);
    out.append(":is_valid()\n");
    out.append(LUA_IS_VALID_BODY);
    let ghost start = out@;
    let n: usize = contract.functions.len();
    let mut i: usize = 0;
    while i < n
        invariant
            n == contract.functions@.len(),
            i <= n,
            c@ == lua_peer_class(contract.name@),
            out@ == lua_peer_methods(start, contract.functions@.take(i as int), c@, enums@),
        decreases n - i,
    {
        generate_lua_guest_peer_method(out, &contract.functions[i], c, enums);
        assert(contract.functions@.take(i + 1).drop_last() =~= contract.functions@.take(i as int));
        i = i + 1;
    }
    assert(contract.functions@.take(n as int) =~= contract.functions@);
    out.append("\n");
}

// ─── Enums ──────────────────────────────────────────────────────────────────

/// Replace references to declared variants in a value expression by the
/// referenced value in parentheses.
pub fn substitute_variant_refs_lua(declared_variants: &Vec<EnumVariant>, expr: &str) -> (r: String)
    ensures
        r@ == substitute_refs(declared_variants@, expr@, None),
{
    substitute_refs_with(declared_variants, expr, None)
}

/// Whether a value expression uses a bitwise operator (`<<`, `|` or `~`).
pub open spec fn uses_bit_ops(v: Seq<char>) -> bool {
    has_infix(v, "<<"@) || has_infix(v, "|"@) || has_infix(v, "~"@)
}

/// Whether some variant of some enum uses a bitwise operator.
pub open spec fn enums_need_bit(enums: Seq<EnumDef>) -> bool {
    exists|i: int, j: int| 0 <= i < enums.len() && 0 <= j < enums[i].variants@.len() && #[trigger] uses_bit_ops(
        enums[i].variants@[j].value@,
    )
}

/// Returns true if any enum in `enums` has a variant value that uses `<<`, `|`, or `~`.
pub fn needs_bit_library(enums: &[EnumDef]) -> (r: bool)
    ensures
        r == enums_need_bit(enums@),
{
    let mut i: usize = 0;
    while i < enums.len()
        invariant
            i <= enums@.len(),
            forall|a: int, b: int| 0 <= a < i && 0 <= b < enums@[a].variants@.len() ==> !#[trigger] uses_bit_ops(
                enums@[a].variants@[b].value@,
            ),
        decreases enums@.len() - i,
    {
        let e: &EnumDef = &enums[i];
        let mut j: usize = 0;
        while j < e.variants.len()
            invariant
                i < enums@.len(),
                *e == enums@[i as int],
                j <= e.variants@.len(),
                forall|a: int, b: int| 0 <= a < i && 0 <= b < enums@[a].variants@.len() ==> !#[trigger] uses_bit_ops(
                    enums@[a].variants@[b].value@,
                ),
                forall|b: int| 0 <= b < j ==> !#[trigger] uses_bit_ops(e.variants@[b].value@),
            decreases e.variants@.len() - j,
        {
            let v: &str = e.variants[j].value.as_str();
            if contains_str(v, "<<") || contains_str(v, "|") || contains_str(v, "~") {
                assert(uses_bit_ops(enums@[i as int].variants@[j as int].value@));
                return true;
            }
            j = j + 1;
        }
        i = i + 1;
    }
    false
}

/// One `    <Name> = <value>,` line per variant, values substituted and rewritten.
pub open spec fn lua_enum_entries(acc: Seq<char>, all: Seq<EnumVariant>, vars: Seq<EnumVariant>) -> Seq<char>
    decreases vars.len(),
{
    if vars.len() == 0 {
        acc
    } else {
        lua_enum_entries(acc, all, vars.drop_last()) + "    "@ + vars.last().name@ + " = "@ + lua_value_expr(
            substitute_refs(all, vars.last().value@, None),
        ) + ",\n"@
    }
}

/// A contract enum as a Lua table.
pub open spec fn lua_enum_table(acc: Seq<char>, e: EnumDef) -> Seq<char> {
    let head = if e.bitflag {
        acc + "--- Bitflag enum "@ + e.name@ + "\n"@
    } else {
        acc + "--- Enum "@ + e.name@ + "\n"@
    };
    lua_enum_entries(head + "local "@ + e.name@ + " = {\n"@, e.variants@, e.variants@) + "}\n"@
}

/// Emit a contract enum as a Lua table (bitwise operators through the `bit` library).
pub fn generate_lua_enum(out: &mut String, e: &EnumDef)
    ensures
        final(out)@ == lua_enum_table(old(out)@, *e),
{
    if e.bitflag {
        out.append("--- Bitflag enum ");
    } else {
        out.append("--- Enum ");
    }
    out.append(e.name.as_str());
    out.append("\n");
    out.append("local ");
    out.append(e.name.as_str());
    out.append(" = {\n");
    let ghost start = out@;
    let n: usize = e.variants.len();
    let mut i: usize = 0;
    while i < n
        invariant
            n == e.variants@.len(),
            i <= n,
            out@ == lua_enum_entries(start, e.variants@, e.variants@.take(i as int)),
        decreases n - i,
    {
        let subst_value: String = substitute_variant_refs_lua(&e.variants, e.variants[i].value.as_str());
        let subst_chars: Vec<char> = chars_of(subst_value.as_str());
        let final_value: String = lua_transform_value_expr(&subst_chars);
        out.append("    ");
        out.append(e.variants[i].name.as_str());
        out.append(" = ");
        out.append(final_value.as_str());
        out.append(",\n");
        assert(e.variants@.take(i + 1).drop_last() =~= e.variants@.take(i as int));
        i = i + 1;
    }
    assert(e.variants@.take(n as int) =~= e.variants@);
    out.append("}\n");
}

// ─── Host interface factories ───────────────────────────────────────────────

/// Per-field extraction from an argument-pack struct in a dispatcher branch.
pub open spec fn lua_dispatch_pack_fields(acc: Seq<char>, params: Seq<ResolvedParam>) -> Seq<char>
    decreases params.len(),
{
    if params.len() == 0 {
        acc
    } else {
        let prev = lua_dispatch_pack_fields(acc, params.drop_last());
        let n = params.last().name@;
        match params.last().ty {
            ResolvedTypeRef::AbiType(AbiBuiltin::StringView) | ResolvedTypeRef::AbiType(AbiBuiltin::Buffer) => prev
                + "                local "@ + n + " = ffi.string(packed."@ + n + ".ptr, packed."@ + n + ".len)\n"@,
            _ => prev + "                local "@ + n + " = packed."@ + n + "\n"@,
        }
    }
}

/// How a dispatcher branch reads its arguments: a pointer to the single
/// value, or to the argument-pack struct for several parameters.
pub open spec fn lua_dispatch_args(acc: Seq<char>, class: Seq<char>, func: ResolvedFunction, enums: Seq<EnumDef>) -> Seq<char> {
    let params = func.params@;
    if params.len() == 0 {
        acc
    } else if params.len() == 1 {
        let n = params[0].name@;
        match params[0].ty {
            ResolvedTypeRef::AbiType(AbiBuiltin::StringView) => acc + "                local "@ + n
                + "_sv = ffi.cast(\"const StringView*\", args)[0]\n"@ + "                local "@ + n + " = ffi.string("@ + n
                + "_sv.ptr, "@ + n + "_sv.len)\n"@,
            ResolvedTypeRef::AbiType(AbiBuiltin::Buffer) => acc + "                local "@ + n
                + "_buf = ffi.cast(\"const Buffer*\", args)[0]\n"@ + "                local "@ + n + " = ffi.string("@ + n
                + "_buf.ptr, "@ + n + "_buf.len)\n"@,
            _ => acc + "                local "@ + n + " = ffi.cast(\"const "@ + lua_ctype(params[0].ty, enums)
                + "*\", args)[0]\n"@,
        }
    } else {
        lua_dispatch_pack_fields(
            acc + "                local packed = ffi.cast(\"const "@ + lua_arg_pack_struct(class, func.name@)
                + "*\", args)[0]\n"@,
            params,
        )
    }
}

/// Emit argument extraction for one host-contract dispatcher branch.
pub fn generate_lua_host_dispatch_args(out: &mut String, class_name: &str, func: &ResolvedFunction, enums: &[EnumDef])
    ensures
        final(out)@ == lua_dispatch_args(old(out)@, class_name@, *func, enums@),
{
    if func.params.len() == 0 {
        return;
    }
    if func.params.len() == 1 {
        let param: &ResolvedParam = &func.params[0];
        let name: &str = param.name.as_str();
        match &param.ty {
            ResolvedTypeRef::AbiType(AbiBuiltin::StringView) => {
                out.append("                local ");
                out.append(name);
                out.append("_sv = ffi.cast(\"const StringView*\", args)[0]\n");
                out.append("                local ");
                out.append(name);
                out.append(" = ffi.string(");
                out.append(name);
                out.append("_sv.ptr, ");
                out.append(name);
                out.append("_sv.len)\n");
            },
            ResolvedTypeRef::AbiType(AbiBuiltin::Buffer) => {
                out.append("                local ");
                out.append(name);
                out.append("_buf = ffi.cast(\"const Buffer*\", args)[0]\n");
                out.append("                local ");
                out.append(name);
                out.append(" = ffi.string(");
                out.append(name);
                out.append("_buf.ptr, ");
                out.append(name);
                out.append("_buf.len)\n");
            },
            other => {
                let ty_name: String = lua_c_type_name(other, enums);
                out.append("                local ");
                out.append(name);
                out.append(" = ffi.cast(\"const ");
                out.append(ty_name.as_str());
                out.append("*\", args)[0]\n");
            },
        }
        return;
    }
    let pack_struct: String = arg_pack_struct_name(class_name, func.name.as_str());
    out.append("                local packed = ffi.cast(\"const ");
    out.append(pack_struct.as_str());
    out.append("*\", args)[0]\n");
    let ghost start = out@;
    let n: usize = func.params.len();
    let mut i: usize = 0;
    while i < n
        invariant
            n == func.params@.len(),
            i <= n,
            out@ == lua_dispatch_pack_fields(start, func.params@.take(i as int)),
        decreases n - i,
    {
        let name: &str = func.params[i].name.as_str();
        match &func.params[i].ty {
            ResolvedTypeRef::AbiType(AbiBuiltin::StringView) | ResolvedTypeRef::AbiType(AbiBuiltin::Buffer) => {
                out.append("                local ");
                out.append(name);
                out.append(" = ffi.string(packed.");
                out.append(name);
                out.append(".ptr, packed.");
                out.append(name);
                out.append(".len)\n");
            },
            _ => {
                out.append("                local ");
                out.append(name);
                out.append(" = packed.");
                out.append(name);
                out.append("\n");
            },
        }
        assert(func.params@.take(i + 1).drop_last() =~= func.params@.take(i as int));
        i = i + 1;
    }
    assert(func.params@.take(n as int) =~= func.params@);
}

/// The implementation call (and result store) of one dispatcher branch.
pub open spec fn lua_dispatch_call(acc: Seq<char>, func: ResolvedFunction, enums: Seq<EnumDef>) -> Seq<char> {
    let args = join_param_names(func.params@);
    if returns_value(func.returns) {
        acc + "                local result = impl:"@ + func.name@ + "("@ + args + ")\n"@ + "                ffi.cast(\""@
            + lua_ctype(func.returns->0, enums) + "*\", out)[0] = result\n"@
    } else {
        acc + "                impl:"@ + func.name@ + "("@ + args + ")\n"@ + "                local _ = out\n"@
    }
}

/// Emit the implementation call (and result store) for one dispatcher branch.
pub fn generate_lua_host_dispatch_call(out: &mut String, func: &ResolvedFunction, enums: &[EnumDef])
    ensures
        final(out)@ == lua_dispatch_call(old(out)@, *func, enums@),
{
    if has_return_value(&func.returns) {
        out.append("                local result = impl:");
        out.append(func.name.as_str());
        out.append("(");
        push_param_names(out, &func.params);
        out.append(")\n");
        let ret_ty: String = match &func.returns {
            Some(ret) => lua_c_type_name(ret, enums),
            None => "void".to_owned(),
        };
        out.append("                ffi.cast(\"");
        out.append(ret_ty.as_str());
        out.append("*\", out)[0] = result\n");
    } else {
        out.append("                impl:");
        out.append(func.name.as_str());
        out.append("(");
        push_param_names(out, &func.params);
        out.append(")\n");
        out.append("                local _ = out\n");
    }
}

/// The comment block and signature lines of a factory, after the contract name.
pub const LUA_FACTORY_DOC: &'static str = "` (VM dispatch via the lua\n-- loader trampoline \u{2014} see the file header for why native dispatch is\n-- impossible under LuaJIT).\n--\n-- Arguments:\n--     impl: implementation table with methods matching the contract\n--     lua_bridge_lib: ffi.load handle for the lua loader cdylib\n--         (libpolyplug_lua), e.g. require('polyplug.loaders.lua').bridge_lib()\n--\n-- Memory:\n-- The returned interface is anchored and lives for the lifetime of the program.\n";

/// The start of a factory's dispatcher.
pub const LUA_DISPATCH_START: &'static str = "    local function dispatch(fn_id, args, out)\n        local ok, code = pcall(function()\n";

/// The end of a factory's dispatcher and the bridge construction.
pub const LUA_DISPATCH_END: &'static str = "            return AbiErrorCode.FunctionNotAvailable\n        end)\n        if not ok then\n            return AbiErrorCode.Panic\n        end\n        return code\n    end\n\n    local callback = ffi.cast(\"PolyplugLuaHostDispatchCallback\", dispatch)\n    local bridge = ffi.new(\"PolyplugLuaHostDispatchBridge\")\n    bridge.callback = callback\n\n    local interface = ffi.new(\"HostContractInterface\")\n";

/// The VM-dispatch wiring of a factory's interface and its return.
pub const LUA_FACTORY_TAIL: &'static str = "    interface.dispatch_type = ffi.C.DispatchType_VirtualMachine\n    interface.runtime = nil  -- set by the runtime during registration\n    interface.user_data = ffi.cast(\"void*\", bridge)\n    interface.create_instance = lua_bridge_lib.polyplug_lua_host_create_instance\n    interface.destroy_instance = lua_bridge_lib.polyplug_lua_host_destroy_instance\n    interface.dispatch.vm.call = lua_bridge_lib.polyplug_lua_host_vm_dispatch\n    interface.dispatch.vm.loader_data.data = ffi.cast(\"void*\", bridge)\n\n    _anchors[#_anchors + 1] = { interface = interface, bridge = bridge, callback = callback, impl = impl }\n    return interface\nend\n\n";

/// The dispatcher branches, one per function, numbered from `base`.
pub open spec fn lua_dispatch_branches(acc: Seq<char>, class: Seq<char>, funcs: Seq<ResolvedFunction>, enums: Seq<EnumDef>) -> Seq<char>
    decreases funcs.len(),
{
    if funcs.len() == 0 {
        acc
    } else {
        let idx = (funcs.len() - 1) as nat;
        lua_dispatch_call(
            lua_dispatch_args(
                lua_dispatch_branches(acc, class, funcs.drop_last(), enums) + "            if fn_id == "@ + dec_digits(idx)
                    + " then\n"@,
                class,
                funcs.last(),
                enums,
            ),
            funcs.last(),
            enums,
        ) + "                return AbiErrorCode.Ok\n            end\n"@
    }
}

/// The name of a host contract's interface factory.
pub open spec fn lua_factory_name(name: Seq<char>) -> Seq<char> {
    "create_"@ + lower_str(replace_chars(name, seq!['.'], '_')) + "_interface"@
}

/// The interface factory of one host contract.
pub open spec fn lua_interface_factory(acc: Seq<char>, contract: ResolvedHostContract, enums: Seq<EnumDef>) -> Seq<char> {
    let f = lua_factory_name(contract.name@);
    let class = host_class_base(contract.name@);
    lua_dispatch_branches(
        acc + "-- Create a host contract interface for `"@ + contract.name@ + LUA_FACTORY_DOC@ + "function M."@ + f
            + "(impl, lua_bridge_lib)\n"@ + "    if impl == nil then\n        error(\""@ + f + ": impl is nil\")\n    end\n"@
            + "    if lua_bridge_lib == nil then\n        error(\""@ + f
            + ": lua_bridge_lib is nil (pass the lua loader cdylib handle)\")\n    end\n\n"@ + LUA_DISPATCH_START@,
        class,
        contract.functions@,
        enums,
    ) + LUA_DISPATCH_END@ + "    interface.contract_id = 0x"@ + hex_digits(contract.contract_id as nat, 16) + "ULL\n"@
        + "    interface.contract_version.major = "@ + dec_digits(contract.version.major as nat) + "\n"@
        + "    interface.contract_version.minor = "@ + dec_digits(contract.version.minor as nat) + "\n"@
        + "    interface.contract_version.patch = "@ + dec_digits(contract.version.patch as nat) + "\n"@
        + "    interface.singleton = "@ + (if contract.singleton {
        "1  -- singleton"@
    } else {
        "0  -- multi-instance"@
    }) + "\n"@ + LUA_FACTORY_TAIL@
}

/// Generate the interface factory for one host contract: a scalar-only
/// LuaJIT dispatcher behind the lua loader's VM-dispatch trampoline.
pub fn generate_lua_host_interface_factory(out: &mut String, contract: &ResolvedHostContract, enums: &[EnumDef])
    ensures
        final(out)@ == lua_interface_factory(old(out)@, *contract, enums@),
{
    let class_name: String = host_contract_name_to_lua_class(contract.name.as_str());
    let snake: String = dots_to_underscores(contract.name.as_str());
    let lower: String = to_lowercase(snake.as_str());
    let mut factory_name: String = String::new();
    factory_name.append("create_");
    factory_name.append(lower.as_str());
    factory_name.append("_interface");
    let f: &str = factory_name.as_str();
    out.append("-- Create a host contract interface for `");
    out.append(contract.name.as_str());
    out.append(LUA_FACTORY_DOC);
    out.append("function M.");
    out.append(f);
    out.append("(impl, lua_bridge_lib)\n");
    out.append("    if impl == nil then\n        error(\"");
    out.append(f);
    out.append(": impl is nil\")\n    end\n");
    out.append("    if lua_bridge_lib == nil then\n        error(\"");
    out.append(f);
    out.append(": lua_bridge_lib is nil (pass the lua loader cdylib handle)\")\n    end\n\n");
    out.append(LUA_DISPATCH_START);
    let ghost start = out@;
    let n: usize = contract.functions.len();
    let mut i: usize = 0;
    while i < n
        invariant
            n == contract.functions@.len(),
            i <= n,
            class_name@ == host_class_base(contract.name@),
            out@ == lua_dispatch_branches(start, class_name@, contract.functions@.take(i as int), enums@),
        decreases n - i,
    {
        out.append("            if fn_id == ");
        push_usize(out, i);
        out.append(" then\n");
        generate_lua_host_dispatch_args(out, class_name.as_str(), &contract.functions[i], enums);
        generate_lua_host_dispatch_call(out, &contract.functions[i], enums);
        out.append("                return AbiErrorCode.Ok\n            end\n");
        proof {
            let t = contract.functions@.take(i + 1);
            assert(t.drop_last() =~= contract.functions@.take(i as int));
            assert(t.len() - 1 == i);
        }
        i = i + 1;
    }
    assert(contract.functions@.take(n as int) =~= contract.functions@);
    out.append(LUA_DISPATCH_END);
    out.append("    interface.contract_id = 0x");
    push_hex16(out, contract.contract_id);
    out.append("ULL\n");
    out.append("    interface.contract_version.major = ");
    push_u32(out, contract.version.major);
    out.append("\n");
    out.append("    interface.contract_version.minor = ");
    push_u32(out, contract.version.minor);
    out.append("\n");
    out.append("    interface.contract_version.patch = ");
    push_u32(out, contract.version.patch);
    out.append("\n");
    out.append("    interface.singleton = ");
    if contract.singleton {
        out.append("1  -- singleton");
    } else {
        out.append("0  -- multi-instance");
    }
    out.append("\n");
    out.append(LUA_FACTORY_TAIL);
}

// ─── Argument-pack declarations for whole files ─────────────────────────────

/// Pack declarations for the multi-parameter functions among `funcs`, each
/// followed by a blank line when `sep`.
pub open spec fn lua_function_packs(acc: Seq<char>, owner: Seq<char>, funcs: Seq<ResolvedFunction>, enums: Seq<EnumDef>, sep: bool) -> Seq<char>
    decreases funcs.len(),
{
    if funcs.len() == 0 {
        acc
    } else {
        let prev = lua_function_packs(acc, owner, funcs.drop_last(), enums, sep);
        if funcs.last().params@.len() >= 2 {
            let decl = lua_arg_pack_decl(prev, owner, funcs.last(), enums);
            if sep {
                decl + "\n"@
            } else {
                decl
            }
        } else {
            prev
        }
    }
}

fn push_function_packs(out: &mut String, owner: &str, funcs: &Vec<ResolvedFunction>, enums: &[EnumDef], sep: bool)
    ensures
        final(out)@ == lua_function_packs(old(out)@, owner@, funcs@, enums@, sep),
{
    let n: usize = funcs.len();
    let mut i: usize = 0;
    while i < n
        invariant
            n == funcs@.len(),
            i <= n,
            out@ == lua_function_packs(old(out)@, owner@, funcs@.take(i as int), enums@, sep),
        decreases n - i,
    {
        if needs_arg_pack(&funcs[i].params) {
            emit_lua_arg_pack_struct(out, owner, &funcs[i], enums);
            if sep {
                out.append("\n");
            }
        }
        assert(funcs@.take(i + 1).drop_last() =~= funcs@.take(i as int));
        i = i + 1;
    }
    assert(funcs@.take(n as int) =~= funcs@);
}

/// The class owning a host contract's packs: the host class, or the guest caller class.
pub open spec fn lua_host_owner(name: Seq<char>, caller: bool) -> Seq<char> {
    if caller {
        lua_host_caller_class(name)
    } else {
        host_class_base(name)
    }
}

/// Pack declarations for every host contract.
pub open spec fn lua_host_packs(acc: Seq<char>, contracts: Seq<ResolvedHostContract>, caller: bool, enums: Seq<EnumDef>) -> Seq<char>
    decreases contracts.len(),
{
    if contracts.len() == 0 {
        acc
    } else {
        lua_function_packs(
            lua_host_packs(acc, contracts.drop_last(), caller, enums),
            lua_host_owner(contracts.last().name@, caller),
            contracts.last().functions@,
            enums,
            false,
        )
    }
}

fn push_host_packs(out: &mut String, contracts: &Vec<ResolvedHostContract>, caller: bool, enums: &[EnumDef])
    ensures
        final(out)@ == lua_host_packs(old(out)@, contracts@, caller, enums@),
{
    let n: usize = contracts.len();
    let mut i: usize = 0;
    while i < n
        invariant
            n == contracts@.len(),
            i <= n,
            out@ == lua_host_packs(old(out)@, contracts@.take(i as int), caller, enums@),
        decreases n - i,
    {
        let owner: String = if caller {
            host_contract_name_to_lua_caller(contracts[i].name.as_str())
        } else {
            host_contract_name_to_lua_class(contracts[i].name.as_str())
        };
        push_function_packs(out, owner.as_str(), &contracts[i].functions, enums, false);
        assert(contracts@.take(i + 1).drop_last() =~= contracts@.take(i as int));
        i = i + 1;
    }
    assert(contracts@.take(n as int) =~= contracts@);
}

/// The owner of a guest contract's packs: its FFI struct, or its peer class.
pub open spec fn lua_guest_owner(name: Seq<char>, peer: bool) -> Seq<char> {
    if peer {
        lua_peer_class(name)
    } else {
        lua_contract_struct(name)
    }
}

/// Pack declarations for every guest contract.
pub open spec fn lua_guest_packs(acc: Seq<char>, contracts: Seq<ResolvedContract>, peer: bool, enums: Seq<EnumDef>, sep: bool) -> Seq<char>
    decreases contracts.len(),
{
    if contracts.len() == 0 {
        acc
    } else {
        lua_function_packs(
            lua_guest_packs(acc, contracts.drop_last(), peer, enums, sep),
            lua_guest_owner(contracts.last().name@, peer),
            contracts.last().functions@,
            enums,
            sep,
        )
    }
}

/// The contracts behind a list of references.
pub open spec fn derefs(cs: Seq<&ResolvedContract>) -> Seq<ResolvedContract> {
    cs.map_values(|c: &ResolvedContract| *c)
}

fn push_guest_packs(out: &mut String, contracts: &[&ResolvedContract], peer: bool, enums: &[EnumDef], sep: bool)
    ensures
        final(out)@ == lua_guest_packs(old(out)@, derefs(contracts@), peer, enums@, sep),
{
    let ghost cs = derefs(contracts@);
    let n: usize = contracts.len();
    let mut i: usize = 0;
    while i < n
        invariant
            n == contracts@.len(),
            cs == derefs(contracts@),
            i <= n,
            out@ == lua_guest_packs(old(out)@, cs.take(i as int), peer, enums@, sep),
        decreases n - i,
    {
        let c: &ResolvedContract = contracts[i];
        let owner: String = if peer {
            contract_name_to_lua_peer_class(c.name.as_str())
        } else {
            contract_name_to_struct(c.name.as_str())
        };
        push_function_packs(out, owner.as_str(), &c.functions, enums, sep);
        assert(cs.take(i + 1).drop_last() =~= cs.take(i as int));
        assert(cs.take(i + 1).last() == *c);
        i = i + 1;
    }
    assert(cs.take(n as int) =~= cs);
}

/// References to every contract of `v`, in order.
pub fn contract_refs(v: &Vec<ResolvedContract>) -> (r: Vec<&ResolvedContract>)
    ensures
        derefs(r@) == v@,
{
    let mut r: Vec<&ResolvedContract> = Vec::new();
    let mut i: usize = 0;
    while i < v.len()
        invariant
            i <= v@.len(),
            r@.len() == i,
            forall|k: int| 0 <= k < i ==> *r@[k] == v@[k],
        decreases v@.len() - i,
    {
        r.push(&v[i]);
        i = i + 1;
    }
    assert(derefs(r@) =~= v@);
    r
}

/// `cdef_guarded([[ ... ]])` around `packs`, or nothing when there are none.
pub open spec fn lua_guarded_packs(acc: Seq<char>, packs: Seq<char>, with_helper: bool) -> Seq<char> {
    if packs.len() == 0 {
        acc
    } else if with_helper {
        acc + LUA_CDEF_GUARDED@ + "cdef_guarded([[\n"@ + packs + "]])\n\n"@
    } else {
        acc + "cdef_guarded([[\n"@ + packs + "]])\n\n"@
    }
}

fn push_guarded_packs(out: &mut String, packs: &String, with_helper: bool)
    ensures
        final(out)@ == lua_guarded_packs(old(out)@, packs@, with_helper),
{
    if packs.as_str().unicode_len() != 0 {
        if with_helper {
            out.append(LUA_CDEF_GUARDED);
        }
        out.append("cdef_guarded([[\n");
        out.append(packs.as_str());
        out.append("]])\n\n");
    }
}

// ─── Files ──────────────────────────────────────────────────────────────────

/// The metatables of all host contracts.
pub open spec fn lua_metatables(acc: Seq<char>, contracts: Seq<ResolvedHostContract>) -> Seq<char>
    decreases contracts.len(),
{
    if contracts.len() == 0 {
        acc
    } else {
        lua_metatable(lua_metatables(acc, contracts.drop_last()), contracts.last())
    }
}

/// `M.<CLASS>_<suffix> = 0x<id>ULL` for every host contract, with the given class naming.
pub open spec fn lua_host_id_exports(acc: Seq<char>, contracts: Seq<ResolvedHostContract>, caller: bool, suffix: Seq<char>) -> Seq<char>
    decreases contracts.len(),
{
    if contracts.len() == 0 {
        acc
    } else {
        let c = contracts.last();
        lua_host_id_exports(acc, contracts.drop_last(), caller, suffix) + "M."@ + upper_str(
            lua_host_owner(c.name@, caller),
        ) + suffix + " = 0x"@ + hex_digits(c.contract_id as nat, 16) + "ULL\n"@
    }
}

/// `M.<Class> = <Class>` for every host contract, with the given class naming.
pub open spec fn lua_host_class_exports(acc: Seq<char>, contracts: Seq<ResolvedHostContract>, caller: bool) -> Seq<char>
    decreases contracts.len(),
{
    if contracts.len() == 0 {
        acc
    } else {
        let cls = lua_host_owner(contracts.last().name@, caller);
        lua_host_class_exports(acc, contracts.drop_last(), caller) + "M."@ + cls + " = "@ + cls + "\n"@
    }
}

fn push_host_exports(out: &mut String, contracts: &Vec<ResolvedHostContract>, caller: bool, suffix: &str, ids_title: &str, classes_title: &str)
    ensures
        final(out)@ == lua_host_class_exports(
            lua_host_id_exports(old(out)@ + ids_title@, contracts@, caller, suffix@) + "\n"@ + classes_title@,
            contracts@,
            caller,
        ) + "\n"@,
{
    out.append(ids_title);
    let ghost start = out@;
    let n: usize = contracts.len();
    let mut i: usize = 0;
    while i < n
        invariant
            n == contracts@.len(),
            i <= n,
            out@ == lua_host_id_exports(start, contracts@.take(i as int), caller, suffix@),
        decreases n - i,
    {
        let cls: String = if caller {
            host_contract_name_to_lua_caller(contracts[i].name.as_str())
        } else {
            host_contract_name_to_lua_class(contracts[i].name.as_str())
        };
        let upper: String = to_uppercase(cls.as_str());
        out.append("M.");
        out.append(upper.as_str());
        out.append(suffix);
        out.append(" = 0x");
        push_hex16(out, contracts[i].contract_id);
        out.append("ULL\n");
        assert(contracts@.take(i + 1).drop_last() =~= contracts@.take(i as int));
        i = i + 1;
    }
    assert(contracts@.take(n as int) =~= contracts@);
    out.append("\n");
    out.append(classes_title);
    let ghost mid = out@;
    let mut j: usize = 0;
    while j < n
        invariant
            n == contracts@.len(),
            j <= n,
            out@ == lua_host_class_exports(mid, contracts@.take(j as int), caller),
        decreases n - j,
    {
        let cls: String = if caller {
            host_contract_name_to_lua_caller(contracts[j].name.as_str())
        } else {
            host_contract_name_to_lua_class(contracts[j].name.as_str())
        };
        out.append("M.");
        out.append(cls.as_str());
        out.append(" = ");
        out.append(cls.as_str());
        out.append("\n");
        assert(contracts@.take(j + 1).drop_last() =~= contracts@.take(j as int));
        j = j + 1;
    }
    assert(contracts@.take(n as int) =~= contracts@);
    out.append("\n");
}

/// `host/contracts.lua`: metatables for each host contract, their ids and classes.
pub open spec fn lua_host_contracts_file(ir: crate::ir::ValidatedIr) -> Seq<char> {
    lua_host_class_exports(
        lua_host_id_exports(
            lua_metatables(LUA_FILE_HEADER@ + "local M = {}\n\n"@, ir.host_contracts@) + "-- Contract ID constants\n"@,
            ir.host_contracts@,
            false,
            "_CONTRACT_ID"@,
        ) + "\n"@ + "-- Export host contract classes\n"@,
        ir.host_contracts@,
        false,
    ) + "\n"@ + "return M\n"@
}

/// Generate `host/contracts.lua` — metatables for each host contract.
pub fn generate_host_contracts_file(ir: &crate::ir::ValidatedIr) -> (r: String)
    ensures
        r@ == lua_host_contracts_file(*ir),
{
    let mut out: String = String::new();
    out.append(file_header());
    out.append("local M = {}\n\n");
    let ghost start = out@;
    let n: usize = ir.host_contracts.len();
    let mut i: usize = 0;
    while i < n
        invariant
            n == ir.host_contracts@.len(),
            i <= n,
            out@ == lua_metatables(start, ir.host_contracts@.take(i as int)),
        decreases n - i,
    {
        generate_lua_host_contract_metatable(&mut out, &ir.host_contracts[i]);
        assert(ir.host_contracts@.take(i + 1).drop_last() =~= ir.host_contracts@.take(i as int));
        i = i + 1;
    }
    assert(ir.host_contracts@.take(n as int) =~= ir.host_contracts@);
    push_host_exports(&mut out, &ir.host_contracts, false, "_CONTRACT_ID", "-- Contract ID constants\n", "-- Export host contract classes\n");
    out.append("return M\n");
    out
}

/// The guest-side callers of all host contracts.
pub open spec fn lua_guest_host_callers(acc: Seq<char>, contracts: Seq<ResolvedHostContract>, enums: Seq<EnumDef>) -> Seq<char>
    decreases contracts.len(),
{
    if contracts.len() == 0 {
        acc
    } else {
        lua_guest_host_caller(lua_guest_host_callers(acc, contracts.drop_last(), enums), contracts.last(), enums)
    }
}

/// The cached native dispatch type of guest-side host contract callers.
pub const LUA_GUEST_DISPATCH_TYPE: &'static str = "-- Cached FFI types for hot path performance\nlocal DispatchFnType = ffi.typeof(\"AbiError (*)(const void*, const void*, void*)\")\n\n";

/// `guest/host_contracts.lua`: caller classes for every host contract.
pub open spec fn lua_guest_host_contracts_file(ir: crate::ir::ValidatedIr) -> Seq<char> {
    let packs = lua_host_packs(Seq::<char>::empty(), ir.host_contracts@, true, ir.enums@);
    lua_host_class_exports(
        lua_host_id_exports(
            lua_guest_host_callers(
                lua_guarded_packs(
                    LUA_FILE_HEADER@ + "local ffi = require(\"ffi\")\n"@ + "local polyplug_abi = require(\"polyplug_abi\")\n\n"@,
                    packs,
                    true,
                ) + "local M = {}\n\n"@ + LUA_GUEST_DISPATCH_TYPE@,
                ir.host_contracts@,
                ir.enums@,
            ) + "-- Contract ID constants\n"@,
            ir.host_contracts@,
            true,
            "_ID"@,
        ) + "\n"@ + "-- Export guest caller classes\n"@,
        ir.host_contracts@,
        true,
    ) + "\n"@ + "return M\n"@
}

/// Generate `guest/host_contracts.lua` — guest-side caller classes for host contracts.
pub fn generate_guest_host_contracts_file(ir: &crate::ir::ValidatedIr) -> (r: String)
    ensures
        r@ == lua_guest_host_contracts_file(*ir),
{
    let mut out: String = String::new();
    out.append(file_header());
    out.append("local ffi = require(\"ffi\")\n");
    out.append("local polyplug_abi = require(\"polyplug_abi\")\n\n");
    let mut packs: String = String::new();
    push_host_packs(&mut packs, &ir.host_contracts, true, ir.enums.as_slice());
    assert(packs@ == lua_host_packs(Seq::<char>::empty(), ir.host_contracts@, true, ir.enums@));
    push_guarded_packs(&mut out, &packs, true);
    out.append("local M = {}\n\n");
    out.append(LUA_GUEST_DISPATCH_TYPE);
    let ghost start = out@;
    let n: usize = ir.host_contracts.len();
    let mut i: usize = 0;
    while i < n
        invariant
            n == ir.host_contracts@.len(),
            i <= n,
            out@ == lua_guest_host_callers(start, ir.host_contracts@.take(i as int), ir.enums@),
        decreases n - i,
    {
        generate_lua_guest_host_contract_caller(&mut out, &ir.host_contracts[i], ir.enums.as_slice());
        assert(ir.host_contracts@.take(i + 1).drop_last() =~= ir.host_contracts@.take(i as int));
        i = i + 1;
    }
    assert(ir.host_contracts@.take(n as int) =~= ir.host_contracts@);
    push_host_exports(&mut out, &ir.host_contracts, true, "_ID", "-- Contract ID constants\n", "-- Export guest caller classes\n");
    out.append("return M\n");
    out
}

/// The interface factories of all host contracts.
pub open spec fn lua_interface_factories(acc: Seq<char>, contracts: Seq<ResolvedHostContract>, enums: Seq<EnumDef>) -> Seq<char>
    decreases contracts.len(),
{
    if contracts.len() == 0 {
        acc
    } else {
        lua_interface_factory(lua_interface_factories(acc, contracts.drop_last(), enums), contracts.last(), enums)
    }
}

/// The preamble of `host/interface_factories.lua` up to the trampoline declarations.
pub const LUA_FACTORIES_PREAMBLE: &'static str = "-- Requires the polyplug_abi cdefs (HostContractInterface, AbiError, ...);\n-- the host must require(\"polyplug_abi\") before requiring this module.\nlocal ffi = require(\"ffi\")\n\n-- ABI error codes (match polyplug_abi.AbiErrorCode)\nlocal AbiErrorCode = {\n    Ok = 0,\n    Panic = 3,\n    FunctionNotAvailable = 6,\n}\n\n";

/// The bridge and trampoline declarations of the lua loader cdylib.
pub const LUA_TRAMPOLINE_CDEFS: &'static str = "cdef_guarded([[\n    typedef uint32_t (*PolyplugLuaHostDispatchCallback)(uint32_t, const void*, void*);\n    typedef struct PolyplugLuaHostDispatchBridge {\n        PolyplugLuaHostDispatchCallback callback;\n    } PolyplugLuaHostDispatchBridge;\n    AbiError polyplug_lua_host_vm_dispatch(VmLoaderData, GuestContractInstance, uint32_t, const void*, void*, CallArena*);\n    HostContractInstance polyplug_lua_host_create_instance(const HostContractInterface*, const void*);\n    void polyplug_lua_host_destroy_instance(const HostContractInterface*, HostContractInstance);\n]])\n\n";

/// The module table and the anchors of `host/interface_factories.lua`.
pub const LUA_FACTORIES_ANCHORS: &'static str = "local M = {}\n\n-- Anchors for cdata that must stay alive after a factory returns: the\n-- runtime keeps the interface pointer for its whole lifetime and every\n-- dispatch reaches the bridge + callback. Module-local (per-VM) state.\nlocal _anchors = {}\n\n";

/// `host/interface_factories.lua`: one VM-dispatch factory per host contract.
pub open spec fn lua_interface_factories_file(ir: crate::ir::ValidatedIr) -> Seq<char> {
    let packs = lua_host_packs(Seq::<char>::empty(), ir.host_contracts@, false, ir.enums@);
    lua_interface_factories(
        lua_guarded_packs(LUA_FILE_HEADER@ + LUA_FACTORIES_PREAMBLE@ + LUA_CDEF_GUARDED@ + LUA_TRAMPOLINE_CDEFS@, packs, false)
            + LUA_FACTORIES_ANCHORS@,
        ir.host_contracts@,
        ir.enums@,
    ) + "return M\n"@
}

/// Generate `host/interface_factories.lua`: host contracts registered with
/// VM dispatch through the lua loader's native trampoline.
pub fn generate_lua_host_interface_factories_file(ir: &crate::ir::ValidatedIr) -> (r: String)
    ensures
        r@ == lua_interface_factories_file(*ir),
{
    let mut out: String = String::new();
    out.append(file_header());
    out.append(LUA_FACTORIES_PREAMBLE);
    out.append(cdef_guarded_block());
    out.append(LUA_TRAMPOLINE_CDEFS);
    let mut packs: String = String::new();
    push_host_packs(&mut packs, &ir.host_contracts, false, ir.enums.as_slice());
    assert(packs@ == lua_host_packs(Seq::<char>::empty(), ir.host_contracts@, false, ir.enums@));
    push_guarded_packs(&mut out, &packs, false);
    out.append(LUA_FACTORIES_ANCHORS);
    let ghost start = out@;
    let n: usize = ir.host_contracts.len();
    let mut i: usize = 0;
    while i < n
        invariant
            n == ir.host_contracts@.len(),
            i <= n,
            out@ == lua_interface_factories(start, ir.host_contracts@.take(i as int), ir.enums@),
        decreases n - i,
    {
        generate_lua_host_interface_factory(&mut out, &ir.host_contracts[i], ir.enums.as_slice());
        assert(ir.host_contracts@.take(i + 1).drop_last() =~= ir.host_contracts@.take(i as int));
        i = i + 1;
    }
    assert(ir.host_contracts@.take(n as int) =~= ir.host_contracts@);
    out.append("return M\n");
    out
}


/// Every user type as an FFI struct declaration, each followed by a blank line.
pub open spec fn lua_user_types(acc: Seq<char>, types: Seq<ResolvedType>, enums: Seq<EnumDef>) -> Seq<char>
    decreases types.len(),
{
    if types.len() == 0 {
        acc
    } else {
        lua_user_type_decl(lua_user_types(acc, types.drop_last(), enums), types.last(), enums) + "\n"@
    }
}

/// Every enum as a Lua table, each followed by a blank line.
pub open spec fn lua_enum_tables(acc: Seq<char>, enums: Seq<EnumDef>) -> Seq<char>
    decreases enums.len(),
{
    if enums.len() == 0 {
        acc
    } else {
        lua_enum_table(lua_enum_tables(acc, enums.drop_last()), enums.last()) + "\n"@
    }
}

/// `ffi.metatype("<Name>", {})` for every user type.
pub open spec fn lua_metatypes(acc: Seq<char>, types: Seq<ResolvedType>) -> Seq<char>
    decreases types.len(),
{
    if types.len() == 0 {
        acc
    } else {
        lua_metatypes(acc, types.drop_last()) + "ffi.metatype(\""@ + types.last().name@ + "\", {})\n"@
    }
}

/// `types.lua`: the FFI declarations of user types and argument packs, enum
/// tables, and a metatype for every user type.
pub open spec fn lua_types_file(ir: crate::ir::ValidatedIr) -> Seq<char> {
    let head = if enums_need_bit(ir.enums@) {
        LUA_FILE_HEADER@ + "local bit = require(\"bit\")\n"@
    } else {
        LUA_FILE_HEADER@
    };
    lua_metatypes(
        lua_enum_tables(
            lua_guest_packs(
                lua_user_types(head + "local ffi = require(\"ffi\")\n\n"@ + LUA_CDEF_GUARDED@ + "cdef_guarded([[\n"@, ir.types@, ir.enums@),
                ir.contracts@,
                false,
                ir.enums@,
                true,
            ) + "]]) \n"@,
            ir.enums@,
        ),
        ir.types@,
    )
}

/// Generate `types.lua` for host and guest alike.
pub fn generate_lua_types_file(ir: &crate::ir::ValidatedIr) -> (r: String)
    ensures
        r@ == lua_types_file(*ir),
{
    let mut out: String = String::new();
    out.append(file_header());
    if needs_bit_library(ir.enums.as_slice()) {
        out.append("local bit = require(\"bit\")\n");
    }
    out.append("local ffi = require(\"ffi\")\n\n");
    out.append(cdef_guarded_block());
    out.append("cdef_guarded([[\n");
    let ghost s0 = out@;
    let nt: usize = ir.types.len();
    let mut i: usize = 0;
    while i < nt
        invariant
            nt == ir.types@.len(),
            i <= nt,
            out@ == lua_user_types(s0, ir.types@.take(i as int), ir.enums@),
        decreases nt - i,
    {
        generate_lua_user_type(&mut out, &ir.types[i], ir.enums.as_slice());
        out.append("\n");
        assert(ir.types@.take(i + 1).drop_last() =~= ir.types@.take(i as int));
        i = i + 1;
    }
    assert(ir.types@.take(nt as int) =~= ir.types@);
    let refs: Vec<&ResolvedContract> = contract_refs(&ir.contracts);
    push_guest_packs(&mut out, refs.as_slice(), false, ir.enums.as_slice(), true);
    out.append("]]) \n");
    let ghost s1 = out@;
    let ne: usize = ir.enums.len();
    let mut j: usize = 0;
    while j < ne
        invariant
            ne == ir.enums@.len(),
            j <= ne,
            out@ == lua_enum_tables(s1, ir.enums@.take(j as int)),
        decreases ne - j,
    {
        generate_lua_enum(&mut out, &ir.enums[j]);
        out.append("\n");
        assert(ir.enums@.take(j + 1).drop_last() =~= ir.enums@.take(j as int));
        j = j + 1;
    }
    assert(ir.enums@.take(ne as int) =~= ir.enums@);
    let ghost s2 = out@;
    let mut k: usize = 0;
    while k < nt
        invariant
            nt == ir.types@.len(),
            k <= nt,
            out@ == lua_metatypes(s2, ir.types@.take(k as int)),
        decreases nt - k,
    {
        out.append("ffi.metatype(\"");
        out.append(ir.types[k].name.as_str());
        out.append("\", {})\n");
        assert(ir.types@.take(k + 1).drop_last() =~= ir.types@.take(k as int));
        k = k + 1;
    }
    assert(ir.types@.take(nt as int) =~= ir.types@);
    out
}

/// The error codes the host callers compare against.
pub const LUA_HOST_ABI_CODES: &'static str = "-- ABI error codes (match polyplug_abi.AbiErrorCode)\nlocal AbiErrorCode = {\n    Ok = 0,\n    Generic = 1,\n    InvalidPointer = 8,\n}\n\n";

/// The cached native dispatch type of host callers.
pub const LUA_NATIVE_DISPATCH_TYPE: &'static str = "-- Cached FFI types for hot path performance\nlocal NativeDispatchFnType = ffi.typeof(\"AbiError (*)(GuestContractInstance, const void*, void*)\")\n\n";

/// `local <NAME>_CONTRACT_ID = 0x<id>ULL` for every guest contract.
pub open spec fn lua_local_contract_ids(acc: Seq<char>, contracts: Seq<ResolvedContract>) -> Seq<char>
    decreases contracts.len(),
{
    if contracts.len() == 0 {
        acc
    } else {
        let c = contracts.last();
        lua_local_contract_ids(acc, contracts.drop_last()) + "local "@ + lua_contract_upper(c.name@) + "_CONTRACT_ID = 0x"@
            + hex_digits(c.contract_id as nat, 16) + "ULL\n"@
    }
}

/// `M.<NAME>_CONTRACT_ID = <NAME>_CONTRACT_ID` for every guest contract.
pub open spec fn lua_export_contract_ids(acc: Seq<char>, contracts: Seq<ResolvedContract>) -> Seq<char>
    decreases contracts.len(),
{
    if contracts.len() == 0 {
        acc
    } else {
        let u = lua_contract_upper(contracts.last().name@);
        lua_export_contract_ids(acc, contracts.drop_last()) + "M."@ + u + "_CONTRACT_ID = "@ + u + "_CONTRACT_ID\n"@
    }
}

/// The host callers of every guest contract, each followed by a blank line.
pub open spec fn lua_host_callers(acc: Seq<char>, contracts: Seq<ResolvedContract>, enums: Seq<EnumDef>) -> Seq<char>
    decreases contracts.len(),
{
    if contracts.len() == 0 {
        acc
    } else {
        lua_host_caller(lua_host_callers(acc, contracts.drop_last(), enums), contracts.last(), enums) + "\n"@
    }
}

/// `host/callers.lua`: contract ids and a caller for every guest contract.
pub open spec fn lua_host_callers_file(ir: crate::ir::ValidatedIr) -> Seq<char> {
    lua_host_callers(
        lua_export_contract_ids(
            lua_local_contract_ids(
                LUA_FILE_HEADER@ + "local ffi = require(\"ffi\")\n\n"@ + LUA_HOST_ABI_CODES@ + "-- Contract ID constants\n"@,
                ir.contracts@,
            ) + "\n"@ + "local M = {}\n\n"@,
            ir.contracts@,
        ) + "\n"@ + LUA_NATIVE_DISPATCH_TYPE@,
        ir.contracts@,
        ir.enums@,
    ) + "return M\n"@
}

/// Generate `host/callers.lua`.
#[verifier::rlimit(40)]
pub fn generate_host_callers_file(ir: &crate::ir::ValidatedIr) -> (r: String)
    ensures
        r@ == lua_host_callers_file(*ir),
{
    let mut out: String = String::new();
    out.append(file_header());
    out.append("local ffi = require(\"ffi\")\n\n");
    out.append(LUA_HOST_ABI_CODES);
    out.append("-- Contract ID constants\n");
    let ghost s0 = out@;
    let n: usize = ir.contracts.len();
    let mut i: usize = 0;
    while i < n
        invariant
            n == ir.contracts@.len(),
            i <= n,
            out@ == lua_local_contract_ids(s0, ir.contracts@.take(i as int)),
        decreases n - i,
    {
        let upper: String = contract_upper_name(ir.contracts[i].name.as_str());
        out.append("local ");
        out.append(upper.as_str());
        out.append("_CONTRACT_ID = 0x");
        push_hex16(&mut out, ir.contracts[i].contract_id);
        out.append("ULL\n");
        assert(ir.contracts@.take(i + 1).drop_last() =~= ir.contracts@.take(i as int));
        i = i + 1;
    }
    assert(ir.contracts@.take(n as int) =~= ir.contracts@);
    out.append("\n");
    out.append("local M = {}\n\n");
    let ghost s1 = out@;
    let mut j: usize = 0;
    while j < n
        invariant
            n == ir.contracts@.len(),
            j <= n,
            out@ == lua_export_contract_ids(s1, ir.contracts@.take(j as int)),
        decreases n - j,
    {
        let upper: String = contract_upper_name(ir.contracts[j].name.as_str());
        out.append("M.");
        out.append(upper.as_str());
        out.append("_CONTRACT_ID = ");
        out.append(upper.as_str());
        out.append("_CONTRACT_ID\n");
        assert(ir.contracts@.take(j + 1).drop_last() =~= ir.contracts@.take(j as int));
        j = j + 1;
    }
    assert(ir.contracts@.take(n as int) =~= ir.contracts@);
    out.append("\n");
    out.append(LUA_NATIVE_DISPATCH_TYPE);
    let ghost s2 = out@;
    let mut k: usize = 0;
    while k < n
        invariant
            n == ir.contracts@.len(),
            k <= n,
            out@ == lua_host_callers(s2, ir.contracts@.take(k as int), ir.enums@),
        decreases n - k,
    {
        generate_host_contract_caller(&mut out, &ir.contracts[k], ir.enums.as_slice());
        out.append("\n");
        assert(ir.contracts@.take(k + 1).drop_last() =~= ir.contracts@.take(k as int));
        k = k + 1;
    }
    assert(ir.contracts@.take(n as int) =~= ir.contracts@);
    out.append("return M\n");
    out
}

/// The peer callers of `peers`, each with the minimum version its dependency asks for.
pub open spec fn lua_peer_callers(acc: Seq<char>, peers: Seq<ResolvedContract>, deps: Seq<crate::ir::ResolvedDependency>, enums: Seq<EnumDef>) -> Seq<char>
    decreases peers.len(),
{
    if peers.len() == 0 {
        acc
    } else {
        let c = peers.last();
        lua_peer_caller(
            lua_peer_callers(acc, peers.drop_last(), deps, enums),
            c,
            crate::generators::min_version_for(deps, c.contract_id),
            enums,
        )
    }
}

/// `M.<CLASS>_ID = 0x<id>ULL` for every peer class.
pub open spec fn lua_peer_id_exports(acc: Seq<char>, peers: Seq<ResolvedContract>) -> Seq<char>
    decreases peers.len(),
{
    if peers.len() == 0 {
        acc
    } else {
        let c = peers.last();
        lua_peer_id_exports(acc, peers.drop_last()) + "M."@ + upper_str(lua_peer_class(c.name@)) + "_ID = 0x"@
            + hex_digits(c.contract_id as nat, 16) + "ULL\n"@
    }
}

/// `M.<Class> = <Class>` for every peer class.
pub open spec fn lua_peer_class_exports(acc: Seq<char>, peers: Seq<ResolvedContract>) -> Seq<char>
    decreases peers.len(),
{
    if peers.len() == 0 {
        acc
    } else {
        let cls = lua_peer_class(peers.last().name@);
        lua_peer_class_exports(acc, peers.drop_last()) + "M."@ + cls + " = "@ + cls + "\n"@
    }
}

/// `guest/peer_callers.lua` for the contracts `peers` of the IR's bundle.
pub open spec fn lua_peer_callers_file(ir: crate::ir::ValidatedIr, peers: Seq<ResolvedContract>) -> Seq<char> {
    let packs = lua_guest_packs(Seq::<char>::empty(), peers, true, ir.enums@, false);
    lua_peer_class_exports(
        lua_peer_id_exports(
            lua_peer_callers(
                lua_guarded_packs(
                    LUA_FILE_HEADER@ + "local ffi = require(\"ffi\")\n"@ + "local polyplug_abi = require(\"polyplug_abi\")\n"@
                        + "local polyplug_guest = require(\"polyplug_guest\")\n\n"@,
                    packs,
                    true,
                ) + "local M = {}\n\n"@,
                peers,
                crate::generators::bundle_dependencies(&ir),
                ir.enums@,
            ) + "-- Contract ID constants\n"@,
            peers,
        ) + "\n"@ + "-- Export peer caller classes\n"@,
        peers,
    ) + "\n"@ + "return M\n"@
}

/// Generate `guest/peer_callers.lua`: a peer caller class for every contract
/// of `peers`, with their ids.
pub fn generate_lua_guest_peer_callers_file(ir: &crate::ir::ValidatedIr, peers: &[&ResolvedContract]) -> (r: String)
    ensures
        r@ == lua_peer_callers_file(*ir, derefs(peers@)),
{
    let ghost ps = derefs(peers@);
    let mut out: String = String::new();
    out.append(file_header());
    out.append("local ffi = require(\"ffi\")\n");
    out.append("local polyplug_abi = require(\"polyplug_abi\")\n");
    out.append("local polyplug_guest = require(\"polyplug_guest\")\n\n");
    let mut packs: String = String::new();
    push_guest_packs(&mut packs, peers, true, ir.enums.as_slice(), false);
    push_guarded_packs(&mut out, &packs, true);
    out.append("local M = {}\n\n");
    let ghost s0 = out@;
    let n: usize = peers.len();
    let mut i: usize = 0;
    while i < n
        invariant
            n == peers@.len(),
            ps == derefs(peers@),
            i <= n,
            out@ == lua_peer_callers(s0, ps.take(i as int), crate::generators::bundle_dependencies(ir), ir.enums@),
        decreases n - i,
    {
        let c: &ResolvedContract = peers[i];
        let min_ver: u32 = crate::generators::peer_min_version(ir, c.contract_id);
        generate_lua_guest_peer_caller(&mut out, c, min_ver, ir.enums.as_slice());
        assert(ps.take(i + 1).drop_last() =~= ps.take(i as int));
        assert(ps.take(i + 1).last() == *c);
        i = i + 1;
    }
    assert(ps.take(n as int) =~= ps);
    out.append("-- Contract ID constants\n");
    let ghost s1 = out@;
    let mut j: usize = 0;
    while j < n
        invariant
            n == peers@.len(),
            ps == derefs(peers@),
            j <= n,
            out@ == lua_peer_id_exports(s1, ps.take(j as int)),
        decreases n - j,
    {
        let c: &ResolvedContract = peers[j];
        let class_name: String = contract_name_to_lua_peer_class(c.name.as_str());
        let upper: String = to_uppercase(class_name.as_str());
        out.append("M.");
        out.append(upper.as_str());
        out.append("_ID = 0x");
        push_hex16(&mut out, c.contract_id);
        out.append("ULL\n");
        assert(ps.take(j + 1).drop_last() =~= ps.take(j as int));
        assert(ps.take(j + 1).last() == *c);
        j = j + 1;
    }
    assert(ps.take(n as int) =~= ps);
    out.append("\n");
    out.append("-- Export peer caller classes\n");
    let ghost s2 = out@;
    let mut k: usize = 0;
    while k < n
        invariant
            n == peers@.len(),
            ps == derefs(peers@),
            k <= n,
            out@ == lua_peer_class_exports(s2, ps.take(k as int)),
        decreases n - k,
    {
        let c: &ResolvedContract = peers[k];
        let class_name: String = contract_name_to_lua_peer_class(c.name.as_str());
        out.append("M.");
        out.append(class_name.as_str());
        out.append(" = ");
        out.append(class_name.as_str());
        out.append("\n");
        assert(ps.take(k + 1).drop_last() =~= ps.take(k as int));
        assert(ps.take(k + 1).last() == *c);
        k = k + 1;
    }
    assert(ps.take(n as int) =~= ps);
    out.append("\n");
    out.append("return M\n");
    out
}


// ─── Guest registration ─────────────────────────────────────────────────────

/// A function name usable as a Lua identifier: dots become underscores.
pub open spec fn lua_fn_ident(name: Seq<char>) -> Seq<char> {
    replace_chars(name, seq!['.'], '_')
}

/// Whether a function takes exactly one parameter, a `StringView`.
pub open spec fn single_string_view(func: ResolvedFunction) -> bool {
    func.params@.len() == 1 && func.params@[0].ty == ResolvedTypeRef::AbiType(AbiBuiltin::StringView)
}

/// Whether a function returns a `StringView`.
pub open spec fn returns_string_view(func: ResolvedFunction) -> bool {
    func.returns == Some(ResolvedTypeRef::AbiType(AbiBuiltin::StringView))
}

/// Copies a `StringView` result into the out slot, raising on `nil`.
pub const LUA_HANDLER_SV_RESULT: &'static str = "        if out_ptr ~= 0 and result ~= nil then\n            local out_sv = ffi.cast(\"StringView*\", ffi.cast(\"uintptr_t\", out_ptr))\n            out_sv[0] = result\n        end\n        if out_ptr ~= 0 and result == nil then\n            error(\"polyplug: implementation returned nil for a StringView-returning function\")\n        end\n";

/// Reads a single `StringView` argument and calls the implementation with it.
pub const LUA_HANDLER_SV_CALL: &'static str = "        local args_sv = ffi.cast(\"const StringView*\", ffi.cast(\"uintptr_t\", args_ptr))\n        local result = impl(args_sv[0])\n";

/// The body of one low-level dispatch handler.
pub open spec fn lua_handler_body(acc: Seq<char>, func: ResolvedFunction, plugin_var: Seq<char>, idx: nat) -> Seq<char> {
    let head = acc + "        local impl = "@ + plugin_var + "_IMPLS["@ + dec_digits(idx) + "]\n"@
        + "        if impl == nil then error(\"polyplug: no implementation registered for function "@
        + dec_digits(idx) + "\") end\n"@;
    let called = if single_string_view(func) {
        head + LUA_HANDLER_SV_CALL@
    } else if func.params@.len() == 0 {
        head + "        local result = impl()\n"@
    } else {
        head + "        local result = impl(args_ptr, out_ptr)\n"@
    };
    if returns_string_view(func) {
        called + LUA_HANDLER_SV_RESULT@
    } else {
        called
    }
}

/// Emit the body of one low-level dispatch handler: marshal the arguments,
/// call the stored high-level implementation, marshal the result.
pub fn emit_lua_guest_handler_body(out: &mut String, func: &ResolvedFunction, plugin_var: &str, idx: usize)
    ensures
        final(out)@ == lua_handler_body(old(out)@, *func, plugin_var@, idx as nat),
{
    out.append("        local impl = ");
    out.append(plugin_var);
    out.append("_IMPLS[");
    push_usize(out, idx);
    out.append("]\n");
    out.append("        if impl == nil then error(\"polyplug: no implementation registered for function ");
    push_usize(out, idx);
    out.append("\") end\n");
    let single: bool = func.params.len() == 1 && match &func.params[0].ty {
        ResolvedTypeRef::AbiType(AbiBuiltin::StringView) => true,
        _ => false,
    };
    if single {
        out.append(LUA_HANDLER_SV_CALL);
    } else if func.params.len() == 0 {
        out.append("        local result = impl()\n");
    } else {
        out.append("        local result = impl(args_ptr, out_ptr)\n");
    }
    let sv_ret: bool = match &func.returns {
        Some(ResolvedTypeRef::AbiType(AbiBuiltin::StringView)) => true,
        _ => false,
    };
    if sv_ret {
        out.append(LUA_HANDLER_SV_RESULT);
    }
}

/// `name: type` for every parameter, joined with `", "`.
pub open spec fn lua_doc_params(params: Seq<ResolvedParam>) -> Seq<char>
    decreases params.len(),
{
    if params.len() == 0 {
        Seq::<char>::empty()
    } else if params.len() == 1 {
        params[0].name@ + ": "@ + lua_type(params[0].ty)
    } else {
        lua_doc_params(params.drop_last()) + ", "@ + params.last().name@ + ": "@ + lua_type(params.last().ty)
    }
}

fn push_doc_params(out: &mut String, params: &Vec<ResolvedParam>)
    ensures
        final(out)@ == old(out)@ + lua_doc_params(params@),
{
    let n: usize = params.len();
    let mut i: usize = 0;
    while i < n
        invariant
            n == params@.len(),
            i <= n,
            out@ == old(out)@ + lua_doc_params(params@.take(i as int)),
        decreases n - i,
    {
        if i > 0 {
            out.append(", ");
        }
        out.append(params[i].name.as_str());
        out.append(": ");
        let t: String = lua_type_name(&params[i].ty);
        out.append(t.as_str());
        proof {
            let tk = params@.take(i + 1);
            assert(tk.drop_last() =~= params@.take(i as int));
            if i == 0 {
                assert(lua_doc_params(params@.take(0)) =~= Seq::<char>::empty());
            }
        }
        i = i + 1;
    }
    assert(params@.take(n as int) =~= params@);
}

/// `<fn>_fn` for every function, joined with `", "`.
pub open spec fn lua_impl_params(funcs: Seq<ResolvedFunction>) -> Seq<char>
    decreases funcs.len(),
{
    if funcs.len() == 0 {
        Seq::<char>::empty()
    } else if funcs.len() == 1 {
        lua_fn_ident(funcs[0].name@) + "_fn"@
    } else {
        lua_impl_params(funcs.drop_last()) + ", "@ + lua_fn_ident(funcs.last().name@) + "_fn"@
    }
}

/// The signature comment line of every function.
pub open spec fn lua_doc_lines(acc: Seq<char>, funcs: Seq<ResolvedFunction>) -> Seq<char>
    decreases funcs.len(),
{
    if funcs.len() == 0 {
        acc
    } else {
        let f = funcs.last();
        let ret = match f.returns {
            Some(t) => lua_type(t),
            None => "()"@,
        };
        lua_doc_lines(acc, funcs.drop_last()) + "--   "@ + lua_fn_ident(f.name@) + "("@ + lua_doc_params(f.params@) + ") -> "@
            + ret + "\n"@
    }
}

/// `<VAR>_IMPLS[<i>] = <fn>_fn` for every function, by position.
pub open spec fn lua_impl_stores(acc: Seq<char>, var: Seq<char>, funcs: Seq<ResolvedFunction>) -> Seq<char>
    decreases funcs.len(),
{
    if funcs.len() == 0 {
        acc
    } else {
        lua_impl_stores(acc, var, funcs.drop_last()) + "    "@ + var + "_IMPLS["@ + dec_digits((funcs.len() - 1) as nat) + "] = "@
            + lua_fn_ident(funcs.last().name@) + "_fn\n"@
    }
}

/// A dispatch handler for every function, by position.
pub open spec fn lua_handlers(acc: Seq<char>, var: Seq<char>, funcs: Seq<ResolvedFunction>) -> Seq<char>
    decreases funcs.len(),
{
    if funcs.len() == 0 {
        acc
    } else {
        let i = (funcs.len() - 1) as nat;
        lua_handler_body(
            lua_handlers(acc, var, funcs.drop_last()) + "    functions["@ + dec_digits(i) + "] = function(args_ptr, out_ptr)\n"@,
            funcs.last(),
            var,
            i,
        ) + "    end\n"@
    }
}

/// The lower-case form of a plugin name with dots and dashes as underscores.
pub open spec fn lua_plugin_lower(name: Seq<char>) -> Seq<char> {
    replace_chars(lower_str(name), seq!['.', '-'], '_')
}

/// The guest-side registration of one plugin implementing one contract.
pub open spec fn lua_plugin_interface(acc: Seq<char>, plugin: Seq<char>, contract: ResolvedContract) -> Seq<char> {
    let var = lua_contract_upper(plugin);
    let funcs = contract.functions@;
    let major = dec_digits(contract.version.major as nat);
    lua_handlers(
        lua_impl_stores(
            lua_doc_lines(
                acc + "-- Guest contract: "@ + plugin + " ("@ + contract.name@ + "@"@ + major + ")\n"@,
                funcs,
            ) + "local "@ + var + "_IMPLS = {}\n"@ + "function M.set_"@ + lua_plugin_lower(plugin) + "_impl("@
                + lua_impl_params(funcs) + ")\n"@,
            var,
            funcs,
        ) + "end\n"@ + "function M._register_"@ + var + "()\n"@ + "    local functions = {}\n"@,
        var,
        funcs,
    ) + "    _G._polyplug_handlers = _G._polyplug_handlers or {}\n"@ + "    _G._polyplug_handlers[\""@ + contract.name@
        + "\"] = {\n"@ + "        contract_version = "@ + major + ",\n"@ + "        plugin_name = \""@ + plugin + "\",\n"@
        + "        functions = functions,\n"@ + "    }\n"@ + "end\n\n"@
}

/// Emit the registration of plugin `plugin_name` for `contract`: the
/// implementation setter and the dispatch handlers the loader registers.
pub fn generate_guest_plugin_interface(out: &mut String, plugin_name: &str, contract: &ResolvedContract) -> (r: Result<(), crate::error::CodegenError>)
    ensures
        r is Ok,
        final(out)@ == lua_plugin_interface(old(out)@, plugin_name@, *contract),
{
    let plugin_var: String = contract_upper_name(plugin_name);
    let lower: String = to_lowercase(plugin_name);
    let plugin_lower: String = dots_dashes_to_underscores(lower.as_str());
    let funcs: &Vec<ResolvedFunction> = &contract.functions;
    let n: usize = funcs.len();
    out.append("-- Guest contract: ");
    out.append(plugin_name);
    out.append(" (");
    out.append(contract.name.as_str());
    out.append("@");
    push_u32(out, contract.version.major);
    out.append(")\n");
    let ghost s0 = out@;
    let mut i: usize = 0;
    while i < n
        invariant
            n == funcs@.len(),
            i <= n,
            out@ == lua_doc_lines(s0, funcs@.take(i as int)),
        decreases n - i,
    {
        let f: &ResolvedFunction = &funcs[i];
        out.append("--   ");
        let ident: String = dots_to_underscores(f.name.as_str());
        out.append(ident.as_str());
        out.append("(");
        push_doc_params(out, &f.params);
        out.append(") -> ");
        match &f.returns {
            Some(t) => {
                let tn: String = lua_type_name(t);
                out.append(tn.as_str());
            },
            None => {
                out.append("()");
            },
        }
        out.append("\n");
        assert(funcs@.take(i + 1).drop_last() =~= funcs@.take(i as int));
        i = i + 1;
    }
    assert(funcs@.take(n as int) =~= funcs@);
    out.append("local ");
    out.append(plugin_var.as_str());
    out.append("_IMPLS = {}\n");
    out.append("function M.set_");
    out.append(plugin_lower.as_str());
    out.append("_impl(");
    let ghost s1 = out@;
    let mut j: usize = 0;
    while j < n
        invariant
            n == funcs@.len(),
            j <= n,
            out@ == s1 + lua_impl_params(funcs@.take(j as int)),
        decreases n - j,
    {
        if j > 0 {
            out.append(", ");
        }
        let ident: String = dots_to_underscores(funcs[j].name.as_str());
        out.append(ident.as_str());
        out.append("_fn");
        proof {
            assert(funcs@.take(j + 1).drop_last() =~= funcs@.take(j as int));
            if j == 0 {
                assert(lua_impl_params(funcs@.take(0)) =~= Seq::<char>::empty());
            }
        }
        j = j + 1;
    }
    assert(funcs@.take(n as int) =~= funcs@);
    out.append(")\n");
    let ghost s2 = out@;
    let mut k: usize = 0;
    while k < n
        invariant
            n == funcs@.len(),
            k <= n,
            out@ == lua_impl_stores(s2, plugin_var@, funcs@.take(k as int)),
        decreases n - k,
    {
        out.append("    ");
        out.append(plugin_var.as_str());
        out.append("_IMPLS[");
        push_usize(out, k);
        out.append("] = ");
        let ident: String = dots_to_underscores(funcs[k].name.as_str());
        out.append(ident.as_str());
        out.append("_fn\n");
        assert(funcs@.take(k + 1).drop_last() =~= funcs@.take(k as int));
        k = k + 1;
    }
    assert(funcs@.take(n as int) =~= funcs@);
    out.append("end\n");
    out.append("function M._register_");
    out.append(plugin_var.as_str());
    out.append("()\n");
    out.append("    local functions = {}\n");
    let ghost s3 = out@;
    let mut m: usize = 0;
    while m < n
        invariant
            n == funcs@.len(),
            m <= n,
            out@ == lua_handlers(s3, plugin_var@, funcs@.take(m as int)),
        decreases n - m,
    {
        out.append("    functions[");
        push_usize(out, m);
        out.append("] = function(args_ptr, out_ptr)\n");
        emit_lua_guest_handler_body(out, &funcs[m], plugin_var.as_str(), m);
        out.append("    end\n");
        assert(funcs@.take(m + 1).drop_last() =~= funcs@.take(m as int));
        m = m + 1;
    }
    assert(funcs@.take(n as int) =~= funcs@);
    out.append("    _G._polyplug_handlers = _G._polyplug_handlers or {}\n");
    out.append("    _G._polyplug_handlers[\"");
    out.append(contract.name.as_str());
    out.append("\"] = {\n");
    out.append("        contract_version = ");
    push_u32(out, contract.version.major);
    out.append(",\n");
    out.append("        plugin_name = \"");
    out.append(plugin_name);
    out.append("\",\n");
    out.append("        functions = functions,\n");
    out.append("    }\n");
    out.append("end\n\n");
    Ok(())
}

/// The `name@major.minor` key a plugin's `implements` entry names a contract by.
pub open spec fn impl_key(c: ResolvedContract) -> Seq<char> {
    c.name@ + "@"@ + dec_digits(c.version.major as nat) + "."@ + dec_digits(c.version.minor as nat)
}

/// The first contract whose key is `key`.
pub open spec fn find_impl(contracts: Seq<ResolvedContract>, key: Seq<char>) -> Option<ResolvedContract>
    decreases contracts.len(),
{
    if contracts.len() == 0 {
        None
    } else if impl_key(contracts[0]) == key {
        Some(contracts[0])
    } else {
        find_impl(contracts.drop_first(), key)
    }
}

pub(crate) fn find_impl_contract<'a>(contracts: &'a Vec<ResolvedContract>, key: &str) -> (r: Option<&'a ResolvedContract>)
    ensures
        match r {
            Some(c) => find_impl(contracts@, key@) == Some(*c),
            None => find_impl(contracts@, key@) is None,
        },
{
    let mut i: usize = 0;
    assert(contracts@.skip(0) =~= contracts@);
    while i < contracts.len()
        invariant
            i <= contracts@.len(),
            find_impl(contracts@, key@) == find_impl(contracts@.skip(i as int), key@),
        decreases contracts@.len() - i,
    {
        assert(contracts@.skip(i as int).drop_first() =~= contracts@.skip(i + 1));
        assert(contracts@.skip(i as int)[0] == contracts@[i as int]);
        let c: &ResolvedContract = &contracts[i];
        let mut k: String = String::new();
        k.append(c.name.as_str());
        k.append("@");
        push_u32(&mut k, c.version.major);
        k.append(".");
        push_u32(&mut k, c.version.minor);
        if str_eq(k.as_str(), key) {
            return Some(c);
        }
        i = i + 1;
    }
    None
}

/// The registrations of one plugin, one per `implements` entry naming a contract.
pub open spec fn lua_plugin_impls(acc: Seq<char>, plugin: Seq<char>, impls: Seq<String>, contracts: Seq<ResolvedContract>) -> Seq<char>
    decreases impls.len(),
{
    if impls.len() == 0 {
        acc
    } else {
        let prev = lua_plugin_impls(acc, plugin, impls.drop_last(), contracts);
        match find_impl(contracts, impls.last()@) {
            Some(c) => lua_plugin_interface(prev, plugin, c),
            None => prev,
        }
    }
}

/// The registrations of every plugin.
pub open spec fn lua_plugins_impls(acc: Seq<char>, plugins: Seq<crate::ir::ResolvedPlugin>, contracts: Seq<ResolvedContract>) -> Seq<char>
    decreases plugins.len(),
{
    if plugins.len() == 0 {
        acc
    } else {
        let p = plugins.last();
        lua_plugin_impls(lua_plugins_impls(acc, plugins.drop_last(), contracts), p.name@, p.implements@, contracts)
    }
}

/// One `M._register_<PLUGIN>()` call per registration of one plugin.
pub open spec fn lua_plugin_calls(acc: Seq<char>, plugin: Seq<char>, impls: Seq<String>, contracts: Seq<ResolvedContract>) -> Seq<char>
    decreases impls.len(),
{
    if impls.len() == 0 {
        acc
    } else {
        let prev = lua_plugin_calls(acc, plugin, impls.drop_last(), contracts);
        if find_impl(contracts, impls.last()@) is Some {
            prev + "    M._register_"@ + lua_contract_upper(plugin) + "()\n"@
        } else {
            prev
        }
    }
}

/// The registration calls of every plugin.
pub open spec fn lua_plugins_calls(acc: Seq<char>, plugins: Seq<crate::ir::ResolvedPlugin>, contracts: Seq<ResolvedContract>) -> Seq<char>
    decreases plugins.len(),
{
    if plugins.len() == 0 {
        acc
    } else {
        let p = plugins.last();
        lua_plugin_calls(lua_plugins_calls(acc, plugins.drop_last(), contracts), p.name@, p.implements@, contracts)
    }
}

/// The plugins of the IR's bundle (none without a bundle).
pub open spec fn bundle_plugins(ir: crate::ir::ValidatedIr) -> Seq<crate::ir::ResolvedPlugin> {
    match ir.bundle {
        Some(b) => b.plugins@,
        None => Seq::<crate::ir::ResolvedPlugin>::empty(),
    }
}

/// The start of the `polyplug_init` entry point the loader calls.
pub const LUA_INIT_START: &'static str = "\n-- Registration entry point called by the LuaLoader.\nfunction polyplug_init(host_ptr, ctx_ptr)\n    if host_ptr == nil or ctx_ptr == nil then\n        return polyplug_guest.AbiErrorCode.Generic\n    end\n    polyplug_guest.store_host_interface(host_ptr)\n";

/// `guest/contracts.lua`: per-plugin registrations and `polyplug_init`.
pub open spec fn lua_guest_contracts_file(ir: crate::ir::ValidatedIr) -> Seq<char> {
    let plugins = bundle_plugins(ir);
    lua_plugins_calls(
        lua_plugins_impls(
            LUA_FILE_HEADER@ + "local ffi = require(\"ffi\")\n"@ + "local polyplug_guest = require(\"polyplug_guest\")\n\n"@
                + "local M = {}\n\n"@,
            plugins,
            ir.contracts@,
        ) + LUA_INIT_START@,
        plugins,
        ir.contracts@,
    ) + "    return polyplug_guest.AbiErrorCode.Ok\n"@ + "end\n\n"@ + "return M\n"@
}

fn push_plugin_registrations(out: &mut String, plugins: &Vec<crate::ir::ResolvedPlugin>, contracts: &Vec<ResolvedContract>, calls: bool)
    ensures
        calls ==> final(out)@ == lua_plugins_calls(old(out)@, plugins@, contracts@),
        !calls ==> final(out)@ == lua_plugins_impls(old(out)@, plugins@, contracts@),
{
    let np: usize = plugins.len();
    let mut i: usize = 0;
    while i < np
        invariant
            np == plugins@.len(),
            i <= np,
            calls ==> out@ == lua_plugins_calls(old(out)@, plugins@.take(i as int), contracts@),
            !calls ==> out@ == lua_plugins_impls(old(out)@, plugins@.take(i as int), contracts@),
        decreases np - i,
    {
        let p: &crate::ir::ResolvedPlugin = &plugins[i];
        let ghost start = out@;
        let ni: usize = p.implements.len();
        let mut j: usize = 0;
        while j < ni
            invariant
                ni == p.implements@.len(),
                j <= ni,
                calls ==> out@ == lua_plugin_calls(start, p.name@, p.implements@.take(j as int), contracts@),
                !calls ==> out@ == lua_plugin_impls(start, p.name@, p.implements@.take(j as int), contracts@),
            decreases ni - j,
        {
            match find_impl_contract(contracts, p.implements[j].as_str()) {
                Some(c) => {
                    if calls {
                        let var: String = contract_upper_name(p.name.as_str());
                        out.append("    M._register_");
                        out.append(var.as_str());
                        out.append("()\n");
                    } else {
                        let _ = generate_guest_plugin_interface(out, p.name.as_str(), c);
                    }
                },
                None => {},
            }
            assert(p.implements@.take(j + 1).drop_last() =~= p.implements@.take(j as int));
            j = j + 1;
        }
        assert(p.implements@.take(ni as int) =~= p.implements@);
        assert(plugins@.take(i + 1).drop_last() =~= plugins@.take(i as int));
        i = i + 1;
    }
    assert(plugins@.take(np as int) =~= plugins@);
}

/// Generate `guest/contracts.lua`: the registration of every plugin of the
/// bundle and the `polyplug_init` entry point.
pub fn generate_guest_contracts_file(ir: &crate::ir::ValidatedIr) -> (r: Result<String, crate::error::CodegenError>)
    ensures
        r matches Ok(s) && s@ == lua_guest_contracts_file(*ir),
{
    let mut out: String = String::new();
    out.append(file_header());
    out.append("local ffi = require(\"ffi\")\n");
    out.append("local polyplug_guest = require(\"polyplug_guest\")\n\n");
    out.append("local M = {}\n\n");
    match &ir.bundle {
        Some(b) => {
            push_plugin_registrations(&mut out, &b.plugins, &ir.contracts, false);
            out.append(LUA_INIT_START);
            push_plugin_registrations(&mut out, &b.plugins, &ir.contracts, true);
        },
        None => {
            out.append(LUA_INIT_START);
        },
    }
    out.append("    return polyplug_guest.AbiErrorCode.Ok\n");
    out.append("end\n\n");
    out.append("return M\n");
    Ok(out)
}


// ─── The generator ──────────────────────────────────────────────────────────

/// `manifest.toml` of a Lua bundle: the bundle's loader names it.
pub open spec fn lua_bundle_manifest(ir: crate::ir::ValidatedIr) -> Seq<char> {
    match ir.bundle {
        Some(b) => bundle_manifest(b, ir.contracts@, "loader = \""@ + b.loader@ + "\"\n"@),
        None => MANIFEST_NO_BUNDLE@,
    }
}

/// Generate the discovery `manifest.toml` of a Lua bundle.
pub fn generate_bundle_manifest_lua(ir: &crate::ir::ValidatedIr) -> (r: String)
    ensures
        r@ == lua_bundle_manifest(*ir),
{
    match &ir.bundle {
        Some(b) => {
            let mut origin: String = String::new();
            origin.append("loader = \"");
            origin.append(b.loader.as_str());
            origin.append("\"\n");
            render_bundle_manifest(b, &ir.contracts, origin.as_str())
        },
        None => MANIFEST_NO_BUNDLE.to_owned(),
    }
}

/// The LuaJIT generator.
pub struct LuaGenerator;

/// The files the host side gets.
pub open spec fn lua_host_files(ir: crate::ir::ValidatedIr) -> Seq<(Seq<char>, Seq<char>, bool)> {
    let base = seq![("host/types.lua"@, lua_types_file(ir), false), ("host/callers.lua"@, lua_host_callers_file(ir), false)];
    if ir.host_contracts@.len() == 0 {
        base
    } else {
        base + seq![
            ("host/contracts.lua"@, lua_host_contracts_file(ir), false),
            ("host/interface_factories.lua"@, lua_interface_factories_file(ir), false),
        ]
    }
}

/// The files the guest side gets.
pub open spec fn lua_guest_files(ir: crate::ir::ValidatedIr) -> Seq<(Seq<char>, Seq<char>, bool)> {
    let base = seq![("guest/types.lua"@, lua_types_file(ir), false), ("guest/contracts.lua"@, lua_guest_contracts_file(ir), false)];
    let with_manifest = if ir.bundle is Some {
        base.push(("manifest.toml"@, lua_bundle_manifest(ir), true))
    } else {
        base
    };
    let with_host = if ir.host_contracts@.len() == 0 {
        with_manifest
    } else {
        with_manifest.push(("guest/host_contracts.lua"@, lua_guest_host_contracts_file(ir), false))
    };
    let peers = crate::generators::peer_contracts(&ir);
    if peers.len() == 0 {
        with_host
    } else {
        with_host.push(("guest/peer_callers.lua"@, lua_peer_callers_file(ir, peers), false))
    }
}

impl CodeGenerator for LuaGenerator {
    fn generate_host(&self, ir: &crate::ir::ValidatedIr, files: &mut GeneratedFiles) -> (r: Result<(), crate::error::CodegenError>)
        ensures
            r is Ok,
            files_view(final(files).files@) == files_view(old(files).files@) + lua_host_files(*ir),
    {
        let ghost before = files_view(files.files@);
        let types_lua: String = generate_lua_types_file(ir);
        let callers_lua: String = generate_host_callers_file(ir);
        push_file(files, "host/types.lua", types_lua, false);
        push_file(files, "host/callers.lua", callers_lua, false);
        if ir.host_contracts.len() != 0 {
            let contracts_lua: String = generate_host_contracts_file(ir);
            push_file(files, "host/contracts.lua", contracts_lua, false);
            let factories_lua: String = generate_lua_host_interface_factories_file(ir);
            push_file(files, "host/interface_factories.lua", factories_lua, false);
        }
        assert(files_view(files.files@) =~= before + lua_host_files(*ir));
        Ok(())
    }

    #[verifier::rlimit(40)]
    fn generate_guest(&self, ir: &crate::ir::ValidatedIr, files: &mut GeneratedFiles) -> (r: Result<(), crate::error::CodegenError>)
        ensures
            r is Ok,
            files_view(final(files).files@) == files_view(old(files).files@) + lua_guest_files(*ir),
    {
        let ghost before = files_view(files.files@);
        let types_lua: String = generate_lua_types_file(ir);
        let contracts_lua: String = match generate_guest_contracts_file(ir) {
            Ok(s) => s,
            Err(e) => {
                return Err(e);
            },
        };
        push_file(files, "guest/types.lua", types_lua, false);
        push_file(files, "guest/contracts.lua", contracts_lua, false);
        let ghost mid = files_view(files.files@);
        if ir.bundle.is_some() {
            push_file(files, "manifest.toml", generate_bundle_manifest_lua(ir), true);
        }
        if ir.host_contracts.len() != 0 {
            let host_contracts_lua: String = generate_guest_host_contracts_file(ir);
            push_file(files, "guest/host_contracts.lua", host_contracts_lua, false);
        }
        let ghost mid2 = files_view(files.files@);
        let peers: Vec<&ResolvedContract> = crate::generators::collect_peer_contracts(ir);
        if peers.len() != 0 {
            let peer_lua: String = generate_lua_guest_peer_callers_file(ir, peers.as_slice());
            push_file(files, "guest/peer_callers.lua", peer_lua, false);
        }
        proof {
            let ps = crate::generators::peer_contracts(ir);
            assert(derefs(peers@) == ps);
            let base = seq![("guest/types.lua"@, lua_types_file(*ir), false), ("guest/contracts.lua"@, lua_guest_contracts_file(*ir), false)];
            assert(mid == before + base);
            let with_manifest = if ir.bundle is Some {
                base.push(("manifest.toml"@, lua_bundle_manifest(*ir), true))
            } else {
                base
            };
            let with_host = if ir.host_contracts@.len() == 0 {
                with_manifest
            } else {
                with_manifest.push(("guest/host_contracts.lua"@, lua_guest_host_contracts_file(*ir), false))
            };
            assert(mid2 =~= before + with_host);
            assert(files_view(files.files@) =~= before + lua_guest_files(*ir));
        }
        Ok(())
    }
}


/// Every contract whose id one of the bundle's dependencies names, in
/// declaration order; none without a bundle or without a match.
pub fn collect_lua_peer_contracts(ir: &crate::ir::ValidatedIr) -> (r: Vec<&ResolvedContract>)
    ensures
        derefs(r@) == crate::generators::peer_contracts(ir),
{
    let r: Vec<&ResolvedContract> = crate::generators::collect_peer_contracts(ir);
    assert(derefs(r@) == crate::generators::peer_contracts(ir));
    r
}

/// The `min_version` of the first dependency on `target_contract_id`; 0 when none.
pub fn peer_min_version_lua(ir: &crate::ir::ValidatedIr, target_contract_id: u64) -> (r: u32)
    ensures
        r == crate::generators::min_version_for(crate::generators::bundle_dependencies(ir), target_contract_id),
{
    crate::generators::peer_min_version(ir, target_contract_id)
}

} // verus!
