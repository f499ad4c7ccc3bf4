//! Where separately generated pieces have to agree: the manifest dependency
//! tables of every generator, the marshalling of a C++ peer caller and of a
//! host caller, the Lua argument packs that a host dispatcher reads and a
//! guest caller fills, with the declarations both files carry, and the size
//! of a QuickJS caller's argument pack against the Deno caller's.
use crate::generators::cpp::{cpp_args_ptr, cpp_bundle_manifest, cpp_host_function, cpp_peer_fn, cpp_ret, fn_arena, is_void_ret, join_pieces};
use crate::generators::js_quickjs::js_manifest;
use crate::generators::lua::{
    lua_arg_pack_decl, lua_arg_pack_struct, lua_bundle_manifest, lua_dispatch_args, lua_dispatch_branches,
    lua_dispatch_call, lua_dispatch_pack_fields, lua_function_packs, lua_guarded_packs, lua_guest_args,
    lua_guest_host_caller, lua_guest_host_callers, lua_guest_host_contracts_file, lua_guest_host_method,
    lua_guest_host_methods, lua_guest_method_head, lua_guest_method_tail, lua_guest_out, lua_guest_pack_fields,
    lua_host_caller_class, lua_host_class_exports, lua_host_id_exports, lua_host_owner, lua_host_packs,
    lua_interface_factories, lua_interface_factories_file, lua_interface_factory, lua_param_fields,
};
use crate::generators::host_class_base;
use crate::generators::manifest::bundle_manifest;
use crate::generators::{dependency_table, dependency_tables};
use crate::ir::{EnumDef, ResolvedDependency, ResolvedField, ResolvedType, ResolvedFunction, ResolvedHostContract, ResolvedParam, ResolvedTypeRef, ValidatedIr};
use crate::generators::js_quickjs::{
    align_to, align_to_is_next_multiple, caller_slot_is_c_layout, deno_args_layout, deno_args_total, find_type, fits,
    js_align, js_align_fields, js_pack, js_pack_fields, js_size, js_size_fields, js_slot, js_write, layout_fuel,
    ts_args_setup, ts_multi_writes, ts_param_write, ts_slot_totals, TS_ARGS_PTR,
};
use crate::generators::lua::find_enum;
use crate::text::{
    all_ascii, ascii_upper, capitalize, concat_capitalized, has_infix, has_prefix, is_ascii_char, pascal, split_seq,
    strip_prefix_or_self, upper_char,
};
use vstd::prelude::*;

verus! {

/// A text holds itself.
pub broadcast proof fn lemma_infix_refl(x: Seq<char>)
    ensures
        #[trigger] has_infix(x, x),
{
    let i: int = 0;
    assert(x.subrange(i, i + x.len()) =~= x);
}

/// What either part of a concatenation holds, the concatenation holds.
pub broadcast proof fn lemma_infix_of_concat(s: Seq<char>, t: Seq<char>, x: Seq<char>)
    ensures
        has_infix(s, x) || has_infix(t, x) ==> #[trigger] has_infix(s + t, x),
{
    if has_infix(s, x) {
        let i = choose|i: int| 0 <= i && i + x.len() <= s.len() && #[trigger] s.subrange(i, i + x.len()) == x;
        assert((s + t).subrange(i, i + x.len()) =~= s.subrange(i, i + x.len()));
    } else if has_infix(t, x) {
        let i = choose|i: int| 0 <= i && i + x.len() <= t.len() && #[trigger] t.subrange(i, i + x.len()) == x;
        assert((s + t).subrange(s.len() + i, s.len() + i + x.len()) =~= t.subrange(i, i + x.len()));
    }
}

/// Every generator writes the same `[[dependency]]` tables into a bundle's
/// `manifest.toml`: the C++, Lua and QuickJS manifests all end with the
/// tables of the bundle's dependencies, and the Lua and QuickJS manifests
/// are the same text.
pub proof fn manifests_share_dependency_tables(ir: ValidatedIr)
    requires
        ir.bundle is Some,
    ensures
        ({
            let tables = dependency_tables(ir.bundle->0.dependencies@);
            &&& cpp_bundle_manifest(ir).len() >= tables.len()
            &&& cpp_bundle_manifest(ir).skip(cpp_bundle_manifest(ir).len() - tables.len()) == tables
            &&& lua_bundle_manifest(ir).len() >= tables.len()
            &&& lua_bundle_manifest(ir).skip(lua_bundle_manifest(ir).len() - tables.len()) == tables
        }),
        lua_bundle_manifest(ir) == js_manifest(ir),
{
    let b = ir.bundle->0;
    let tables = dependency_tables(b.dependencies@);
    assert forall|a: Seq<char>| #[trigger] (a + tables).skip(a.len() as int) == tables by {
        assert((a + tables).skip(a.len() as int) =~= tables);
    }
    let c = cpp_bundle_manifest(ir);
    let l = lua_bundle_manifest(ir);
    assert(c == bundle_manifest(b, ir.contracts@, "runtime = \"native\"\n"@));
    assert(l == bundle_manifest(b, ir.contracts@, "loader = \""@ + b.loader@ + "\"\n"@));
}

/// The out slot of a caller method: a null pointer for a void return, else a
/// value-initialised local of the return type and a pointer to it.
pub open spec fn cpp_out_slot(ret: Option<ResolvedTypeRef>) -> Seq<char> {
    if is_void_ret(ret) {
        "        void* out_ptr = nullptr;\n"@
    } else {
        "        "@ + cpp_ret(ret) + " out{};\n        void* out_ptr = &out;\n"@
    }
}

/// The arena argument of a dispatch: the caller's arena exactly when the
/// function returns a variable-size value.
pub open spec fn cpp_arena_arg(func: ResolvedFunction) -> Seq<char> {
    if fn_arena(func) {
        "&arena_"@
    } else {
        "nullptr"@
    }
}

/// A peer caller method marshals its call as the host caller method of the
/// same function does: both take the same parameter list, build `args_ptr`
/// with the same code, prepare the same out slot and pass the same arena
/// argument.
pub proof fn peer_caller_marshals_like_host_caller(acc: Seq<char>, class: Seq<char>, func: ResolvedFunction)
    ensures
        has_infix(cpp_host_function(acc, class, func), join_pieces(func.params@, 1)),
        has_infix(cpp_peer_fn(acc, class, func), join_pieces(func.params@, 1)),
        has_infix(cpp_host_function(acc, class, func), cpp_args_ptr(class, func)),
        has_infix(cpp_peer_fn(acc, class, func), cpp_args_ptr(class, func)),
        has_infix(cpp_host_function(acc, class, func), cpp_out_slot(func.returns)),
        has_infix(cpp_peer_fn(acc, class, func), cpp_out_slot(func.returns)),
        has_infix(cpp_host_function(acc, class, func), cpp_arena_arg(func)),
        has_infix(cpp_peer_fn(acc, class, func), cpp_arena_arg(func)),
{
    broadcast use lemma_infix_of_concat, lemma_infix_refl;
}

/// The closing line that declares the argument pack `st`.
pub open spec fn lua_pack_decl_line(st: Seq<char>) -> Seq<char> {
    "    } "@ + st + ";\n"@
}

/// The dispatcher line that reads the arguments through the pack `st`.
pub open spec fn lua_pack_cast_line(st: Seq<char>) -> Seq<char> {
    "                local packed = ffi.cast(\"const "@ + st + "*\", args)[0]\n"@
}

proof fn lemma_param_fields_keep(acc: Seq<char>, params: Seq<ResolvedParam>, enums: Seq<EnumDef>, x: Seq<char>)
    requires
        has_infix(acc, x),
    ensures
        has_infix(lua_param_fields(acc, params, enums), x),
    decreases params.len(),
{
    broadcast use lemma_infix_of_concat;
    if params.len() > 0 {
        lemma_param_fields_keep(acc, params.drop_last(), enums, x);
    }
}

proof fn lemma_function_packs_keep(acc: Seq<char>, owner: Seq<char>, funcs: Seq<ResolvedFunction>, enums: Seq<EnumDef>, sep: bool, x: Seq<char>)
    requires
        has_infix(acc, x),
    ensures
        has_infix(lua_function_packs(acc, owner, funcs, enums, sep), x),
    decreases funcs.len(),
{
    broadcast use lemma_infix_of_concat;
    if funcs.len() > 0 {
        let prev = lua_function_packs(acc, owner, funcs.drop_last(), enums, sep);
        lemma_function_packs_keep(acc, owner, funcs.drop_last(), enums, sep, x);
        lemma_param_fields_keep(prev + "    typedef struct {\n"@, funcs.last().params@, enums, x);
    }
}

/// The field block of the argument pack of `func`: the struct's opening line
/// and one line per parameter, the same for every owner.
pub open spec fn lua_pack_fields_block(func: ResolvedFunction, enums: Seq<EnumDef>) -> Seq<char> {
    lua_param_fields("    typedef struct {\n"@, func.params@, enums)
}

proof fn lemma_infix_trans(s: Seq<char>, x: Seq<char>, y: Seq<char>)
    requires
        has_infix(s, x),
        has_infix(x, y),
    ensures
        has_infix(s, y),
{
    let i = choose|i: int| 0 <= i && i + x.len() <= s.len() && #[trigger] s.subrange(i, i + x.len()) == x;
    let j = choose|j: int| 0 <= j && j + y.len() <= x.len() && #[trigger] x.subrange(j, j + y.len()) == y;
    assert(s.subrange(i + j, i + j + y.len()) =~= x.subrange(j, j + y.len()));
}

proof fn lemma_param_fields_shift(a: Seq<char>, b: Seq<char>, params: Seq<ResolvedParam>, enums: Seq<EnumDef>)
    ensures
        lua_param_fields(a + b, params, enums) == a + lua_param_fields(b, params, enums),
    decreases params.len(),
{
    if params.len() > 0 {
        lemma_param_fields_shift(a, b, params.drop_last(), enums);
        let l = params.last();
        let tail = "        "@ + crate::generators::lua::lua_ctype(l.ty, enums) + " "@ + l.name@ + ";\n"@;
        assert(lua_param_fields(a + b, params, enums) =~= a + lua_param_fields(b, params.drop_last(), enums) + tail);
        assert(a + lua_param_fields(b, params, enums) =~= a + (lua_param_fields(b, params.drop_last(), enums) + tail));
    }
}

/// A declared pack is its field block followed by its closing line.
proof fn lemma_pack_decl_split(prev: Seq<char>, owner: Seq<char>, func: ResolvedFunction, enums: Seq<EnumDef>)
    ensures
        lua_arg_pack_decl(prev, owner, func, enums) == prev + (lua_pack_fields_block(func, enums) + lua_pack_decl_line(
            lua_arg_pack_struct(owner, func.name@),
        )),
{
    lemma_param_fields_shift(prev, "    typedef struct {\n"@, func.params@, enums);
    assert(lua_arg_pack_decl(prev, owner, func, enums) =~= prev + (lua_pack_fields_block(func, enums) + lua_pack_decl_line(
        lua_arg_pack_struct(owner, func.name@),
    )));
}

/// The whole declaration of the pack of `func` owned by `owner`.
pub open spec fn lua_pack_decl(owner: Seq<char>, func: ResolvedFunction, enums: Seq<EnumDef>) -> Seq<char> {
    lua_pack_fields_block(func, enums) + lua_pack_decl_line(lua_arg_pack_struct(owner, func.name@))
}

proof fn lemma_function_packs_declare(acc: Seq<char>, owner: Seq<char>, funcs: Seq<ResolvedFunction>, enums: Seq<EnumDef>, sep: bool, f: int)
    requires
        0 <= f < funcs.len(),
        funcs[f].params@.len() >= 2,
    ensures
        has_infix(lua_function_packs(acc, owner, funcs, enums, sep), lua_pack_decl(owner, funcs[f], enums)),
    decreases funcs.len(),
{
    broadcast use lemma_infix_of_concat, lemma_infix_refl;
    let prev = lua_function_packs(acc, owner, funcs.drop_last(), enums, sep);
    if f == funcs.len() - 1 {
        lemma_pack_decl_split(prev, owner, funcs.last(), enums);
    } else {
        assert(funcs.drop_last()[f] == funcs[f]);
        lemma_function_packs_declare(acc, owner, funcs.drop_last(), enums, sep, f);
        let x = lua_pack_decl(owner, funcs[f], enums);
        if funcs.last().params@.len() >= 2 {
            lemma_param_fields_keep(prev + "    typedef struct {\n"@, funcs.last().params@, enums, x);
        }
    }
}

proof fn lemma_host_packs_keep(acc: Seq<char>, contracts: Seq<ResolvedHostContract>, caller: bool, enums: Seq<EnumDef>, x: Seq<char>)
    requires
        has_infix(acc, x),
    ensures
        has_infix(lua_host_packs(acc, contracts, caller, enums), x),
    decreases contracts.len(),
{
    if contracts.len() > 0 {
        lemma_host_packs_keep(acc, contracts.drop_last(), caller, enums, x);
        lemma_function_packs_keep(
            lua_host_packs(acc, contracts.drop_last(), caller, enums),
            lua_host_owner(contracts.last().name@, caller),
            contracts.last().functions@,
            enums,
            false,
            x,
        );
    }
}

proof fn lemma_host_packs_declare(acc: Seq<char>, contracts: Seq<ResolvedHostContract>, caller: bool, enums: Seq<EnumDef>, c: int, f: int)
    requires
        0 <= c < contracts.len(),
        0 <= f < contracts[c].functions@.len(),
        contracts[c].functions@[f].params@.len() >= 2,
    ensures
        has_infix(
            lua_host_packs(acc, contracts, caller, enums),
            lua_pack_decl(lua_host_owner(contracts[c].name@, caller), contracts[c].functions@[f], enums),
        ),
    decreases contracts.len(),
{
    let prev = lua_host_packs(acc, contracts.drop_last(), caller, enums);
    if c == contracts.len() - 1 {
        lemma_function_packs_declare(prev, lua_host_owner(contracts.last().name@, caller), contracts.last().functions@, enums, false, f);
    } else {
        assert(contracts.drop_last()[c] == contracts[c]);
        lemma_host_packs_declare(acc, contracts.drop_last(), caller, enums, c, f);
        lemma_function_packs_keep(
            prev,
            lua_host_owner(contracts.last().name@, caller),
            contracts.last().functions@,
            enums,
            false,
            lua_pack_decl(lua_host_owner(contracts[c].name@, caller), contracts[c].functions@[f], enums),
        );
    }
}

proof fn lemma_pack_fields_keep(acc: Seq<char>, params: Seq<ResolvedParam>, x: Seq<char>)
    requires
        has_infix(acc, x),
    ensures
        has_infix(lua_dispatch_pack_fields(acc, params), x),
    decreases params.len(),
{
    broadcast use lemma_infix_of_concat;
    if params.len() > 0 {
        lemma_pack_fields_keep(acc, params.drop_last(), x);
    }
}

proof fn lemma_dispatch_args_keep(acc: Seq<char>, class: Seq<char>, func: ResolvedFunction, enums: Seq<EnumDef>, x: Seq<char>)
    requires
        has_infix(acc, x),
    ensures
        has_infix(lua_dispatch_args(acc, class, func, enums), x),
{
    broadcast use lemma_infix_of_concat;
    if func.params@.len() >= 2 {
        lemma_pack_fields_keep(
            acc + "                local packed = ffi.cast(\"const "@ + lua_arg_pack_struct(class, func.name@) + "*\", args)[0]\n"@,
            func.params@,
            x,
        );
    }
}

proof fn lemma_dispatch_args_cast(acc: Seq<char>, class: Seq<char>, func: ResolvedFunction, enums: Seq<EnumDef>)
    requires
        func.params@.len() >= 2,
    ensures
        has_infix(lua_dispatch_args(acc, class, func, enums), lua_pack_cast_line(lua_arg_pack_struct(class, func.name@))),
{
    broadcast use lemma_infix_of_concat, lemma_infix_refl;
    let st = lua_arg_pack_struct(class, func.name@);
    let head = acc + "                local packed = ffi.cast(\"const "@ + st + "*\", args)[0]\n"@;
    assert(head =~= acc + lua_pack_cast_line(st));
    lemma_pack_fields_keep(head, func.params@, lua_pack_cast_line(st));
}

proof fn lemma_branches_keep(acc: Seq<char>, class: Seq<char>, funcs: Seq<ResolvedFunction>, enums: Seq<EnumDef>, x: Seq<char>)
    requires
        has_infix(acc, x),
    ensures
        has_infix(lua_dispatch_branches(acc, class, funcs, enums), x),
    decreases funcs.len(),
{
    broadcast use lemma_infix_of_concat;
    if funcs.len() > 0 {
        let idx = (funcs.len() - 1) as nat;
        let prev = lua_dispatch_branches(acc, class, funcs.drop_last(), enums);
        lemma_branches_keep(acc, class, funcs.drop_last(), enums, x);
        let opened = prev + "            if fn_id == "@ + crate::text::dec_digits(idx) + " then\n"@;
        lemma_dispatch_args_keep(opened, class, funcs.last(), enums, x);
    }
}

proof fn lemma_branches_cast(acc: Seq<char>, class: Seq<char>, funcs: Seq<ResolvedFunction>, enums: Seq<EnumDef>, f: int)
    requires
        0 <= f < funcs.len(),
        funcs[f].params@.len() >= 2,
    ensures
        has_infix(lua_dispatch_branches(acc, class, funcs, enums), lua_pack_cast_line(lua_arg_pack_struct(class, funcs[f].name@))),
    decreases funcs.len(),
{
    broadcast use lemma_infix_of_concat;
    let idx = (funcs.len() - 1) as nat;
    let prev = lua_dispatch_branches(acc, class, funcs.drop_last(), enums);
    let opened = prev + "            if fn_id == "@ + crate::text::dec_digits(idx) + " then\n"@;
    if f == funcs.len() - 1 {
        lemma_dispatch_args_cast(opened, class, funcs.last(), enums);
    } else {
        assert(funcs.drop_last()[f] == funcs[f]);
        lemma_branches_cast(acc, class, funcs.drop_last(), enums, f);
        lemma_dispatch_args_keep(opened, class, funcs.last(), enums, lua_pack_cast_line(lua_arg_pack_struct(class, funcs[f].name@)));
    }
}

pub(crate) proof fn lemma_factories_keep(acc: Seq<char>, contracts: Seq<ResolvedHostContract>, enums: Seq<EnumDef>, x: Seq<char>)
    requires
        has_infix(acc, x),
    ensures
        has_infix(lua_interface_factories(acc, contracts, enums), x),
    decreases contracts.len(),
{
    broadcast use lemma_infix_of_concat;
    if contracts.len() > 0 {
        let prev = lua_interface_factories(acc, contracts.drop_last(), enums);
        lemma_factories_keep(acc, contracts.drop_last(), enums, x);
        lemma_factory_keep(prev, contracts.last(), enums, x);
    }
}

pub(crate) proof fn lemma_factory_keep(acc: Seq<char>, contract: ResolvedHostContract, enums: Seq<EnumDef>, x: Seq<char>)
    requires
        has_infix(acc, x),
    ensures
        has_infix(lua_interface_factory(acc, contract, enums), x),
{
    broadcast use lemma_infix_of_concat;
    let f = crate::generators::lua::lua_factory_name(contract.name@);
    let head = acc + "-- Create a host contract interface for `"@ + contract.name@ + crate::generators::lua::LUA_FACTORY_DOC@ + "function M."@ + f
        + "(impl, lua_bridge_lib)\n"@ + "    if impl == nil then\n        error(\""@ + f + ": impl is nil\")\n    end\n"@
        + "    if lua_bridge_lib == nil then\n        error(\""@ + f
        + ": lua_bridge_lib is nil (pass the lua loader cdylib handle)\")\n    end\n\n"@ + crate::generators::lua::LUA_DISPATCH_START@;
    lemma_branches_keep(head, host_class_base(contract.name@), contract.functions@, enums, x);
}

proof fn lemma_factory_cast(acc: Seq<char>, contract: ResolvedHostContract, enums: Seq<EnumDef>, f: int)
    requires
        0 <= f < contract.functions@.len(),
        contract.functions@[f].params@.len() >= 2,
    ensures
        has_infix(
            lua_interface_factory(acc, contract, enums),
            lua_pack_cast_line(lua_arg_pack_struct(host_class_base(contract.name@), contract.functions@[f].name@)),
        ),
{
    broadcast use lemma_infix_of_concat;
    let fname = crate::generators::lua::lua_factory_name(contract.name@);
    let head = acc + "-- Create a host contract interface for `"@ + contract.name@ + crate::generators::lua::LUA_FACTORY_DOC@ + "function M."@ + fname
        + "(impl, lua_bridge_lib)\n"@ + "    if impl == nil then\n        error(\""@ + fname + ": impl is nil\")\n    end\n"@
        + "    if lua_bridge_lib == nil then\n        error(\""@ + fname
        + ": lua_bridge_lib is nil (pass the lua loader cdylib handle)\")\n    end\n\n"@ + crate::generators::lua::LUA_DISPATCH_START@;
    lemma_branches_cast(head, host_class_base(contract.name@), contract.functions@, enums, f);
}

proof fn lemma_factories_cast(acc: Seq<char>, contracts: Seq<ResolvedHostContract>, enums: Seq<EnumDef>, c: int, f: int)
    requires
        0 <= c < contracts.len(),
        0 <= f < contracts[c].functions@.len(),
        contracts[c].functions@[f].params@.len() >= 2,
    ensures
        has_infix(
            lua_interface_factories(acc, contracts, enums),
            lua_pack_cast_line(lua_arg_pack_struct(host_class_base(contracts[c].name@), contracts[c].functions@[f].name@)),
        ),
    decreases contracts.len(),
{
    let prev = lua_interface_factories(acc, contracts.drop_last(), enums);
    if c == contracts.len() - 1 {
        lemma_factory_cast(prev, contracts.last(), enums, f);
    } else {
        assert(contracts.drop_last()[c] == contracts[c]);
        lemma_factories_cast(acc, contracts.drop_last(), enums, c, f);
        lemma_factory_keep(
            prev,
            contracts.last(),
            enums,
            lua_pack_cast_line(lua_arg_pack_struct(host_class_base(contracts[c].name@), contracts[c].functions@[f].name@)),
        );
    }
}

/// In `host/interface_factories.lua`, the dispatcher of every host-contract
/// function with several parameters reads its arguments through an
/// argument-pack struct that the same file declares, under the same name.
pub proof fn lua_factory_casts_to_declared_packs(ir: ValidatedIr, c: int, f: int)
    requires
        0 <= c < ir.host_contracts@.len(),
        0 <= f < ir.host_contracts@[c].functions@.len(),
        ir.host_contracts@[c].functions@[f].params@.len() >= 2,
    ensures
        ({
            let contract = ir.host_contracts@[c];
            let st = lua_arg_pack_struct(host_class_base(contract.name@), contract.functions@[f].name@);
            &&& has_infix(lua_interface_factories_file(ir), lua_pack_decl(host_class_base(contract.name@), contract.functions@[f], ir.enums@))
            &&& has_infix(lua_interface_factories_file(ir), lua_pack_decl_line(st))
            &&& has_infix(lua_interface_factories_file(ir), lua_pack_cast_line(st))
        }),
{
    broadcast use lemma_infix_of_concat, lemma_infix_refl;
    let contract = ir.host_contracts@[c];
    let func = contract.functions@[f];
    let owner = host_class_base(contract.name@);
    let st = lua_arg_pack_struct(owner, func.name@);
    let decl = lua_pack_decl(owner, func, ir.enums@);
    let packs = lua_host_packs(Seq::<char>::empty(), ir.host_contracts@, false, ir.enums@);
    lemma_host_packs_declare(Seq::<char>::empty(), ir.host_contracts@, false, ir.enums@, c, f);
    assert(lua_host_owner(contract.name@, false) == owner);
    reveal_strlit("    } ");
    assert(decl.len() > 0);
    assert(packs.len() > 0);
    let start = crate::generators::lua::LUA_FILE_HEADER@ + crate::generators::lua::LUA_FACTORIES_PREAMBLE@
        + crate::generators::lua::LUA_CDEF_GUARDED@ + crate::generators::lua::LUA_TRAMPOLINE_CDEFS@;
    let guarded = lua_guarded_packs(start, packs, false) + crate::generators::lua::LUA_FACTORIES_ANCHORS@;
    assert(has_infix(guarded, decl));
    lemma_factories_keep(guarded, ir.host_contracts@, ir.enums@, decl);
    lemma_factories_cast(guarded, ir.host_contracts@, ir.enums@, c, f);
    assert(has_infix(decl, lua_pack_decl_line(st)));
    lemma_infix_trans(lua_interface_factories_file(ir), decl, lua_pack_decl_line(st));
}

// ─── Guest-side callers of host contracts ───────────────────────────────────

/// The line of a guest caller method that allocates the pack `st`.
pub open spec fn lua_pack_alloc_line(st: Seq<char>) -> Seq<char> {
    "    local args_val = ffi.new(\""@ + st + "\")\n"@
}

proof fn lemma_guest_pack_fields_keep(acc: Seq<char>, params: Seq<ResolvedParam>, x: Seq<char>)
    requires
        has_infix(acc, x),
    ensures
        has_infix(lua_guest_pack_fields(acc, params), x),
    decreases params.len(),
{
    broadcast use lemma_infix_of_concat;
    if params.len() > 0 {
        lemma_guest_pack_fields_keep(acc, params.drop_last(), x);
    }
}

proof fn lemma_guest_args_keep(acc: Seq<char>, func: ResolvedFunction, pp: Seq<char>, enums: Seq<EnumDef>, x: Seq<char>)
    requires
        has_infix(acc, x),
    ensures
        has_infix(lua_guest_args(acc, func, pp, enums), x),
{
    broadcast use lemma_infix_of_concat;
    if func.params@.len() >= 2 {
        lemma_guest_pack_fields_keep(acc + lua_pack_alloc_line(lua_arg_pack_struct(pp, func.name@)), func.params@, x);
        assert(acc + "    local args_val = ffi.new(\""@ + lua_arg_pack_struct(pp, func.name@) + "\")\n"@ =~= acc
            + lua_pack_alloc_line(lua_arg_pack_struct(pp, func.name@)));
    }
}

proof fn lemma_guest_args_alloc(acc: Seq<char>, func: ResolvedFunction, pp: Seq<char>, enums: Seq<EnumDef>)
    requires
        func.params@.len() >= 2,
    ensures
        has_infix(lua_guest_args(acc, func, pp, enums), lua_pack_alloc_line(lua_arg_pack_struct(pp, func.name@))),
{
    broadcast use lemma_infix_of_concat, lemma_infix_refl;
    let line = lua_pack_alloc_line(lua_arg_pack_struct(pp, func.name@));
    assert(acc + "    local args_val = ffi.new(\""@ + lua_arg_pack_struct(pp, func.name@) + "\")\n"@ =~= acc + line);
    lemma_guest_pack_fields_keep(acc + line, func.params@, line);
}

proof fn lemma_guest_method_rest_keep(s: Seq<char>, func: ResolvedFunction, enums: Seq<EnumDef>, x: Seq<char>)
    requires
        has_infix(s, x),
    ensures
        ({
            let id = crate::text::dec_digits(func.function_id as nat);
            let bail = crate::generators::lua::lua_bail(func.returns is Some);
            has_infix(
                lua_guest_method_tail(
                    lua_guest_out(s, func.returns, enums) + "    local err\n"@ + "    if dispatch_type == 0 then\n"@ + "        if "@
                        + id + " >= interface.dispatch.native.function_count then\n"@ + "            "@ + bail + "        end\n"@
                        + "        local fn_ptr = interface.dispatch.native.functions["@ + id + "]\n"@
                        + crate::generators::lua::LUA_GUEST_NATIVE_CALL@
                        + "        err = interface.dispatch.vm.call(interface.dispatch.vm.loader_data, _null_instance, "@ + id
                        + ", args_ptr, out_ptr, nil)\n"@,
                    func,
                    enums,
                ),
                x,
            )
        }),
{
    broadcast use lemma_infix_of_concat;
}

proof fn lemma_guest_host_method_keep(acc: Seq<char>, func: ResolvedFunction, class: Seq<char>, enums: Seq<EnumDef>, x: Seq<char>)
    requires
        has_infix(acc, x),
    ensures
        has_infix(lua_guest_host_method(acc, func, class, enums), x),
{
    broadcast use lemma_infix_of_concat;
    let head = lua_guest_method_head(acc, class, func, "HostContractInterface"@);
    lemma_guest_args_keep(head, func, class, enums, x);
    lemma_guest_method_rest_keep(lua_guest_args(head, func, class, enums), func, enums, x);
}

proof fn lemma_guest_host_method_alloc(acc: Seq<char>, func: ResolvedFunction, class: Seq<char>, enums: Seq<EnumDef>)
    requires
        func.params@.len() >= 2,
    ensures
        has_infix(lua_guest_host_method(acc, func, class, enums), lua_pack_alloc_line(lua_arg_pack_struct(class, func.name@))),
{
    let head = lua_guest_method_head(acc, class, func, "HostContractInterface"@);
    lemma_guest_args_alloc(head, func, class, enums);
    lemma_guest_method_rest_keep(
        lua_guest_args(head, func, class, enums),
        func,
        enums,
        lua_pack_alloc_line(lua_arg_pack_struct(class, func.name@)),
    );
}

proof fn lemma_guest_host_methods_keep(acc: Seq<char>, funcs: Seq<ResolvedFunction>, class: Seq<char>, enums: Seq<EnumDef>, x: Seq<char>)
    requires
        has_infix(acc, x),
    ensures
        has_infix(lua_guest_host_methods(acc, funcs, class, enums), x),
    decreases funcs.len(),
{
    if funcs.len() > 0 {
        lemma_guest_host_methods_keep(acc, funcs.drop_last(), class, enums, x);
        lemma_guest_host_method_keep(lua_guest_host_methods(acc, funcs.drop_last(), class, enums), funcs.last(), class, enums, x);
    }
}

proof fn lemma_guest_host_methods_alloc(acc: Seq<char>, funcs: Seq<ResolvedFunction>, class: Seq<char>, enums: Seq<EnumDef>, f: int)
    requires
        0 <= f < funcs.len(),
        funcs[f].params@.len() >= 2,
    ensures
        has_infix(lua_guest_host_methods(acc, funcs, class, enums), lua_pack_alloc_line(lua_arg_pack_struct(class, funcs[f].name@))),
    decreases funcs.len(),
{
    let prev = lua_guest_host_methods(acc, funcs.drop_last(), class, enums);
    if f == funcs.len() - 1 {
        lemma_guest_host_method_alloc(prev, funcs.last(), class, enums);
    } else {
        assert(funcs.drop_last()[f] == funcs[f]);
        lemma_guest_host_methods_alloc(acc, funcs.drop_last(), class, enums, f);
        lemma_guest_host_method_keep(prev, funcs.last(), class, enums, lua_pack_alloc_line(lua_arg_pack_struct(class, funcs[f].name@)));
    }
}

/// The text `lua_guest_host_caller` puts before the methods of `contract`.
pub open spec fn lua_guest_caller_head(acc: Seq<char>, contract: ResolvedHostContract) -> Seq<char> {
    let c = lua_host_caller_class(contract.name@);
    let id = crate::text::hex_digits(contract.contract_id as nat, 16);
    acc + "-- Guest caller for host contract `"@ + contract.name@ + "` (id=0x"@ + id + ")\n"@ + c + " = {}\n"@ + c
        + ".__index = "@ + c + "\n\n"@ + "function "@ + c + ":new(interface, instance)\n"@
        + crate::generators::lua::LUA_GUEST_NEW_BODY@ + "function "@ + c + ".from_host(host_ptr, min_version)\n"@
        + crate::generators::lua::LUA_FROM_HOST_START@
        + "    local interface_ptr = host.resolve_host_contract_interface(host, 0x"@ + id + "ULL, min_version)\n"@
        + crate::generators::lua::LUA_NIL_INTERFACE_PTR@ + "    local instance = host.get_host_contract(host, 0x"@ + id
        + "ULL, min_version)\n"@ + "    return "@ + c + ":new(interface_ptr, instance)\n"@ + "end\n\n"@ + "function "@ + c
        + ":is_valid()\n"@ + crate::generators::lua::LUA_IS_VALID_BODY@
}

proof fn lemma_guest_host_caller_keep(acc: Seq<char>, contract: ResolvedHostContract, enums: Seq<EnumDef>, x: Seq<char>)
    requires
        has_infix(acc, x),
    ensures
        has_infix(lua_guest_host_caller(acc, contract, enums), x),
{
    broadcast use lemma_infix_of_concat;
    let head = lua_guest_caller_head(acc, contract);
    lemma_guest_host_methods_keep(head, contract.functions@, lua_host_caller_class(contract.name@), enums, x);
}

proof fn lemma_guest_host_caller_alloc(acc: Seq<char>, contract: ResolvedHostContract, enums: Seq<EnumDef>, f: int)
    requires
        0 <= f < contract.functions@.len(),
        contract.functions@[f].params@.len() >= 2,
    ensures
        has_infix(
            lua_guest_host_caller(acc, contract, enums),
            lua_pack_alloc_line(lua_arg_pack_struct(lua_host_caller_class(contract.name@), contract.functions@[f].name@)),
        ),
{
    broadcast use lemma_infix_of_concat;
    let head = lua_guest_caller_head(acc, contract);
    lemma_guest_host_methods_alloc(head, contract.functions@, lua_host_caller_class(contract.name@), enums, f);
}

proof fn lemma_guest_host_callers_keep(acc: Seq<char>, contracts: Seq<ResolvedHostContract>, enums: Seq<EnumDef>, x: Seq<char>)
    requires
        has_infix(acc, x),
    ensures
        has_infix(lua_guest_host_callers(acc, contracts, enums), x),
    decreases contracts.len(),
{
    if contracts.len() > 0 {
        lemma_guest_host_callers_keep(acc, contracts.drop_last(), enums, x);
        lemma_guest_host_caller_keep(lua_guest_host_callers(acc, contracts.drop_last(), enums), contracts.last(), enums, x);
    }
}

proof fn lemma_guest_host_callers_alloc(acc: Seq<char>, contracts: Seq<ResolvedHostContract>, enums: Seq<EnumDef>, c: int, f: int)
    requires
        0 <= c < contracts.len(),
        0 <= f < contracts[c].functions@.len(),
        contracts[c].functions@[f].params@.len() >= 2,
    ensures
        has_infix(
            lua_guest_host_callers(acc, contracts, enums),
            lua_pack_alloc_line(lua_arg_pack_struct(lua_host_caller_class(contracts[c].name@), contracts[c].functions@[f].name@)),
        ),
    decreases contracts.len(),
{
    let prev = lua_guest_host_callers(acc, contracts.drop_last(), enums);
    if c == contracts.len() - 1 {
        lemma_guest_host_caller_alloc(prev, contracts.last(), enums, f);
    } else {
        assert(contracts.drop_last()[c] == contracts[c]);
        lemma_guest_host_callers_alloc(acc, contracts.drop_last(), enums, c, f);
        lemma_guest_host_caller_keep(
            prev,
            contracts.last(),
            enums,
            lua_pack_alloc_line(lua_arg_pack_struct(lua_host_caller_class(contracts[c].name@), contracts[c].functions@[f].name@)),
        );
    }
}

proof fn lemma_id_exports_keep(acc: Seq<char>, contracts: Seq<ResolvedHostContract>, caller: bool, suffix: Seq<char>, x: Seq<char>)
    requires
        has_infix(acc, x),
    ensures
        has_infix(lua_host_id_exports(acc, contracts, caller, suffix), x),
    decreases contracts.len(),
{
    broadcast use lemma_infix_of_concat;
    if contracts.len() > 0 {
        lemma_id_exports_keep(acc, contracts.drop_last(), caller, suffix, x);
    }
}

proof fn lemma_class_exports_keep(acc: Seq<char>, contracts: Seq<ResolvedHostContract>, caller: bool, x: Seq<char>)
    requires
        has_infix(acc, x),
    ensures
        has_infix(lua_host_class_exports(acc, contracts, caller), x),
    decreases contracts.len(),
{
    broadcast use lemma_infix_of_concat;
    if contracts.len() > 0 {
        lemma_class_exports_keep(acc, contracts.drop_last(), caller, x);
    }
}

proof fn lemma_guest_file_keep(ir: ValidatedIr, x: Seq<char>, y: Seq<char>)
    requires
        ({
            let packs = lua_host_packs(Seq::<char>::empty(), ir.host_contracts@, true, ir.enums@);
            let start = crate::generators::lua::LUA_FILE_HEADER@ + "local ffi = require(\"ffi\")\n"@
                + "local polyplug_abi = require(\"polyplug_abi\")\n\n"@;
            let pre = lua_guarded_packs(start, packs, true) + "local M = {}\n\n"@ + crate::generators::lua::LUA_GUEST_DISPATCH_TYPE@;
            &&& has_infix(pre, x)
            &&& has_infix(lua_guest_host_callers(pre, ir.host_contracts@, ir.enums@), y)
        }),
    ensures
        has_infix(lua_guest_host_contracts_file(ir), x),
        has_infix(lua_guest_host_contracts_file(ir), y),
{
    broadcast use lemma_infix_of_concat;
    let packs = lua_host_packs(Seq::<char>::empty(), ir.host_contracts@, true, ir.enums@);
    let start = crate::generators::lua::LUA_FILE_HEADER@ + "local ffi = require(\"ffi\")\n"@
        + "local polyplug_abi = require(\"polyplug_abi\")\n\n"@;
    let pre = lua_guarded_packs(start, packs, true) + "local M = {}\n\n"@ + crate::generators::lua::LUA_GUEST_DISPATCH_TYPE@;
    let callers = lua_guest_host_callers(pre, ir.host_contracts@, ir.enums@);
    lemma_guest_host_callers_keep(pre, ir.host_contracts@, ir.enums@, x);
    let ids = lua_host_id_exports(callers + "-- Contract ID constants\n"@, ir.host_contracts@, true, "_ID"@);
    lemma_id_exports_keep(callers + "-- Contract ID constants\n"@, ir.host_contracts@, true, "_ID"@, x);
    lemma_id_exports_keep(callers + "-- Contract ID constants\n"@, ir.host_contracts@, true, "_ID"@, y);
    lemma_class_exports_keep(ids + "\n"@ + "-- Export guest caller classes\n"@, ir.host_contracts@, true, x);
    lemma_class_exports_keep(ids + "\n"@ + "-- Export guest caller classes\n"@, ir.host_contracts@, true, y);
}

/// In `guest/host_contracts.lua`, the caller method of every host-contract
/// function with several parameters allocates an argument-pack struct that
/// the same file declares, under the same name; and that declaration lists
/// the same fields as the pack the host's `host/interface_factories.lua`
/// declares for the function, so both sides agree on the layout.
pub proof fn lua_guest_callers_allocate_declared_packs(ir: ValidatedIr, c: int, f: int)
    requires
        0 <= c < ir.host_contracts@.len(),
        0 <= f < ir.host_contracts@[c].functions@.len(),
        ir.host_contracts@[c].functions@[f].params@.len() >= 2,
    ensures
        ({
            let contract = ir.host_contracts@[c];
            let func = contract.functions@[f];
            let st = lua_arg_pack_struct(lua_host_caller_class(contract.name@), func.name@);
            &&& has_infix(lua_guest_host_contracts_file(ir), lua_pack_decl(lua_host_caller_class(contract.name@), func, ir.enums@))
            &&& has_infix(lua_guest_host_contracts_file(ir), lua_pack_alloc_line(st))
            &&& has_infix(lua_interface_factories_file(ir), lua_pack_decl(host_class_base(contract.name@), func, ir.enums@))
            &&& lua_pack_decl(lua_host_caller_class(contract.name@), func, ir.enums@) == lua_pack_fields_block(func, ir.enums@)
                + lua_pack_decl_line(st)
            &&& lua_pack_decl(host_class_base(contract.name@), func, ir.enums@) == lua_pack_fields_block(func, ir.enums@)
                + lua_pack_decl_line(lua_arg_pack_struct(host_class_base(contract.name@), func.name@))
        }),
{
    broadcast use lemma_infix_of_concat;
    let contract = ir.host_contracts@[c];
    let func = contract.functions@[f];
    let owner = lua_host_caller_class(contract.name@);
    let decl = lua_pack_decl(owner, func, ir.enums@);
    let packs = lua_host_packs(Seq::<char>::empty(), ir.host_contracts@, true, ir.enums@);
    lemma_host_packs_declare(Seq::<char>::empty(), ir.host_contracts@, true, ir.enums@, c, f);
    assert(lua_host_owner(contract.name@, true) == owner);
    reveal_strlit("    } ");
    assert(decl.len() > 0);
    assert(packs.len() > 0);
    let start = crate::generators::lua::LUA_FILE_HEADER@ + "local ffi = require(\"ffi\")\n"@
        + "local polyplug_abi = require(\"polyplug_abi\")\n\n"@;
    let pre = lua_guarded_packs(start, packs, true) + "local M = {}\n\n"@ + crate::generators::lua::LUA_GUEST_DISPATCH_TYPE@;
    assert(has_infix(pre, decl));
    lemma_guest_host_callers_alloc(pre, ir.host_contracts@, ir.enums@, c, f);
    lemma_guest_file_keep(ir, decl, lua_pack_alloc_line(lua_arg_pack_struct(owner, func.name@)));
    lua_factory_casts_to_declared_packs(ir, c, f);
}


// ─── Manifest dependency tables ─────────────────────────────────────────────

/// The dependency tables of a list are those of its parts, one after the
/// other: one table per dependency, in order, none for no dependency.
pub proof fn dependency_tables_concat(xs: Seq<ResolvedDependency>, ys: Seq<ResolvedDependency>)
    ensures
        dependency_tables(Seq::<ResolvedDependency>::empty()) == Seq::<char>::empty(),
        dependency_tables(xs + ys) == dependency_tables(xs) + dependency_tables(ys),
    decreases ys.len(),
{
    if ys.len() == 0 {
        assert(xs + ys =~= xs);
        assert(dependency_tables(xs) + Seq::<char>::empty() =~= dependency_tables(xs));
    } else {
        dependency_tables_concat(xs, ys.drop_last());
        assert((xs + ys).drop_last() =~= xs + ys.drop_last());
        assert((xs + ys).last() == ys.last());
        assert(dependency_tables(xs) + dependency_tables(ys.drop_last()) + dependency_table(ys.last()) =~= dependency_tables(
            xs,
        ) + (dependency_tables(ys.drop_last()) + dependency_table(ys.last())));
    }
}

// ─── Host contract class names ──────────────────────────────────────────────

proof fn lemma_split_pieces_free(s: Seq<char>, sep: char)
    ensures
        forall|k: int| 0 <= k < split_seq(s, sep).len() ==> !(#[trigger] split_seq(s, sep)[k]).contains(sep),
        all_ascii(s) ==> forall|k: int| 0 <= k < split_seq(s, sep).len() ==> all_ascii(#[trigger] split_seq(s, sep)[k]),
    decreases s.len(),
{
    reveal(all_ascii);
    if s.len() > 0 {
        lemma_split_pieces_free(s.drop_last(), sep);
        crate::text::lemma_split_nonempty(s.drop_last(), sep);
        let rest = split_seq(s.drop_last(), sep);
        if s.last() != sep {
            let l = rest.last();
            assert(rest[rest.len() - 1] == l);
            assert(!l.push(s.last()).contains(sep)) by {
                if l.push(s.last()).contains(sep) {
                    let i = choose|i: int| 0 <= i < l.push(s.last()).len() && l.push(s.last())[i] == sep;
                    assert(l[i] == sep);
                }
            }
            if all_ascii(s) {
                assert(all_ascii(s.drop_last()));
                assert(is_ascii_char(s[s.len() - 1]));
                assert(all_ascii(l.push(s.last())));
            }
        } else {
            if all_ascii(s) {
                assert(all_ascii(s.drop_last()));
            }
        }
    }
}

proof fn lemma_capitalized_free(pieces: Seq<Seq<char>>)
    requires
        forall|k: int| 0 <= k < pieces.len() ==> !(#[trigger] pieces[k]).contains('.') && all_ascii(pieces[k]),
    ensures
        !concat_capitalized(pieces).contains('.'),
        all_ascii(concat_capitalized(pieces)),
    decreases pieces.len(),
{
    reveal(upper_char);
    reveal(all_ascii);
    if pieces.len() > 0 {
        lemma_capitalized_free(pieces.drop_last());
        let p = pieces.last();
        assert(pieces[pieces.len() - 1] == p);
        let prev = concat_capitalized(pieces.drop_last());
        let c = capitalize(p);
        if p.len() > 0 {
            assert(is_ascii_char(p[0]));
            assert(p[0] != '.');
            let u = ascii_upper(p[0]);
            assert(u != '.' && is_ascii_char(u));
            assert(c =~= seq![u] + p.drop_first());
            assert(!c.contains('.')) by {
                if c.contains('.') {
                    let i = choose|i: int| 0 <= i < c.len() && c[i] == '.';
                    if i > 0 {
                        assert(p[i] == '.');
                    }
                }
            }
            assert(all_ascii(c)) by {
                assert forall|i: int| 0 <= i < c.len() implies is_ascii_char(#[trigger] c[i]) by {
                    if i > 0 {
                        assert(c[i] == p[i]);
                    }
                }
            }
        } else {
            assert(c =~= Seq::<char>::empty());
        }
        let whole = prev + c;
        assert(!whole.contains('.')) by {
            if whole.contains('.') {
                let i = choose|i: int| 0 <= i < whole.len() && whole[i] == '.';
                if i < prev.len() {
                    assert(prev[i] == '.');
                } else {
                    assert(c[i - prev.len()] == '.');
                }
            }
        }
        assert(all_ascii(whole)) by {
            assert forall|i: int| 0 <= i < whole.len() implies is_ascii_char(#[trigger] whole[i]) by {
                if i < prev.len() {
                    assert(whole[i] == prev[i]);
                } else {
                    assert(whole[i] == c[i - prev.len()]);
                }
            }
        }
    }
}

/// Every generator names a host contract's class the same way (the C++
/// trait, the Lua class and the TypeScript interface are all
/// `host_class_base` of the name); that name starts with `Host`, and for an
/// ASCII contract name it holds no `.`.
pub proof fn host_class_names_agree(name: Seq<char>)
    ensures
        has_prefix(host_class_base(name), "Host"@),
        all_ascii(name) ==> !host_class_base(name).contains('.'),
{
    reveal_strlit("Host");
    reveal_strlit("host.");
    reveal(all_ascii);
    let stripped = strip_prefix_or_self(name, "host."@);
    let p = pascal(stripped, '.');
    if all_ascii(name) {
        assert(all_ascii(stripped)) by {
            if has_prefix(name, "host."@) {
                assert forall|i: int| 0 <= i < stripped.len() implies is_ascii_char(#[trigger] stripped[i]) by {
                    assert(stripped[i] == name[i + 5]);
                }
            }
        }
        lemma_split_pieces_free(stripped, '.');
        lemma_capitalized_free(split_seq(stripped, '.'));
        assert(!p.contains('.'));
        if !has_prefix(p, "Host"@) {
            let h = "Host"@ + p;
            assert(!h.contains('.')) by {
                if h.contains('.') {
                    let i = choose|i: int| 0 <= i < h.len() && h[i] == '.';
                    if i >= 4 {
                        assert(p[i - 4] == '.');
                    }
                }
            }
        }
    }
    if !has_prefix(p, "Host"@) {
        assert(("Host"@ + p).take(4) =~= "Host"@);
    }
}

// ─── QuickJS and Deno argument packs ────────────────────────────────────────

proof fn lemma_slot_totals_deno_layout(params: Seq<ResolvedParam>, fname: Seq<char>, ir: ValidatedIr)
    ensures
        ts_slot_totals(params, fname, ir) matches Ok(t) ==> deno_args_layout(params, fname, ir) == Ok::<(nat, nat), Seq<char>>(t),
    decreases params.len(),
{
    if params.len() > 0 {
        lemma_slot_totals_deno_layout(params.drop_last(), fname, ir);
        caller_slot_is_c_layout(params.last().ty, ir);
    }
}

/// A QuickJS guest caller allocates for a function's argument pack exactly
/// the C-layout size a Deno host caller gives the same function: each
/// parameter at the next multiple of its alignment after the previous one,
/// the total padded to the largest alignment.
pub proof fn quickjs_pack_size_is_deno_size(f: ResolvedFunction, ir: ValidatedIr)
    ensures
        ts_slot_totals(f.params@, f.name@, ir) matches Ok(t) ==> deno_args_total(f, ir) == (if crate::generators::js_quickjs::fits(
            crate::generators::js_quickjs::align_to(t.0, t.1),
        ) {
            Ok::<nat, Seq<char>>(crate::generators::js_quickjs::align_to(t.0, t.1))
        } else {
            Err(f.name@)
        }),
{
    lemma_slot_totals_deno_layout(f.params@, f.name@, ir);
}


/// No name is both a struct type and an enum of the IR (the validated IR's
/// name-collision rule).
pub open spec fn struct_and_enum_names_distinct(ir: ValidatedIr) -> bool {
    forall|name: Seq<char>| #[trigger] find_type(ir.types@, name) is Some ==> find_enum(ir.enums@, name) is None
}

/// An alignment the layout can produce: 1, 2, 4 or 8.
pub open spec fn pow2_align(a: nat) -> bool {
    a == 1 || a == 2 || a == 4 || a == 8
}

proof fn lemma_align_pow2(ty: ResolvedTypeRef, types: Seq<ResolvedType>, enums: Seq<EnumDef>, fuel: nat)
    ensures
        js_align(ty, types, enums, fuel) matches Ok(a) ==> pow2_align(a),
    decreases fuel, 0nat,
{
    if let ResolvedTypeRef::UserDefined(name) = ty {
        if find_enum(enums, name@) is None {
            if let Some(s) = find_type(types, name@) {
                if fuel > 0 {
                    lemma_align_fields_pow2(s.fields@, types, enums, (fuel - 1) as nat);
                }
            }
        }
    }
}

proof fn lemma_align_fields_pow2(fs: Seq<ResolvedField>, types: Seq<ResolvedType>, enums: Seq<EnumDef>, fuel: nat)
    ensures
        js_align_fields(fs, types, enums, fuel) matches Ok(a) ==> pow2_align(a),
    decreases fuel, fs.len() + 1,
{
    if fs.len() > 0 {
        lemma_align_fields_pow2(fs.drop_last(), types, enums, fuel);
        lemma_align_pow2(fs.last().ty, types, enums, fuel);
    }
}

proof fn lemma_align_mono(ty: ResolvedTypeRef, types: Seq<ResolvedType>, enums: Seq<EnumDef>, f: nat, g: nat)
    requires
        f <= g,
    ensures
        js_align(ty, types, enums, f) is Ok ==> js_align(ty, types, enums, g) == js_align(ty, types, enums, f),
        js_size(ty, types, enums, f) is Ok ==> js_size(ty, types, enums, g) == js_size(ty, types, enums, f),
    decreases f, 0nat,
{
    if let ResolvedTypeRef::UserDefined(name) = ty {
        if find_enum(enums, name@) is None {
            if let Some(s) = find_type(types, name@) {
                if f > 0 {
                    lemma_fields_mono(s.fields@, name@, types, enums, (f - 1) as nat, (g - 1) as nat);
                }
            }
        }
    }
}

proof fn lemma_fields_mono(fs: Seq<ResolvedField>, sname: Seq<char>, types: Seq<ResolvedType>, enums: Seq<EnumDef>, f: nat, g: nat)
    requires
        f <= g,
    ensures
        js_align_fields(fs, types, enums, f) is Ok ==> js_align_fields(fs, types, enums, g) == js_align_fields(fs, types, enums, f),
        js_size_fields(fs, sname, types, enums, f) is Ok ==> js_size_fields(fs, sname, types, enums, g) == js_size_fields(
            fs,
            sname,
            types,
            enums,
            f,
        ),
    decreases f, fs.len() + 1,
{
    if fs.len() > 0 {
        lemma_fields_mono(fs.drop_last(), sname, types, enums, f, g);
        lemma_align_mono(fs.last().ty, types, enums, f, g);
    }
}

proof fn lemma_size_fields_align_of(fs: Seq<ResolvedField>, sname: Seq<char>, types: Seq<ResolvedType>, enums: Seq<EnumDef>, fuel: nat)
    ensures
        js_size_fields(fs, sname, types, enums, fuel) matches Ok(p) ==> js_align_fields(fs, types, enums, fuel) == Ok::<
            nat,
            Seq<char>,
        >(p.1),
        fs.len() > 0 ==> (js_size_fields(fs, sname, types, enums, fuel) matches Ok(p) ==> (js_size_fields(
            fs.drop_last(),
            sname,
            types,
            enums,
            fuel,
        ) matches Ok(q) && q.0 <= p.0 && q.1 <= p.1)),
    decreases fs.len(),
{
    if fs.len() > 0 {
        lemma_size_fields_align_of(fs.drop_last(), sname, types, enums, fuel);
        lemma_align_pow2(fs.last().ty, types, enums, fuel);
        if let Ok(q) = js_size_fields(fs.drop_last(), sname, types, enums, fuel) {
            if let Ok(a) = js_align(fs.last().ty, types, enums, fuel) {
                align_to_is_next_multiple(q.0, a);
            }
        }
    }
}

proof fn lemma_pow2_divides(a: nat, m: nat)
    requires
        pow2_align(a),
        pow2_align(m),
        a <= m,
    ensures
        m % a == 0,
{
    if a == 1 {
        assert(m % 1 == 0);
    } else if a == 2 {
        assert(2nat % 2 == 0 && 4nat % 2 == 0 && 8nat % 2 == 0);
    } else if a == 4 {
        assert(4nat % 4 == 0 && 8nat % 4 == 0);
    } else {
        assert(8nat % 8 == 0);
    }
}

proof fn lemma_align_shift(off: nat, x: nat, a: nat)
    requires
        a > 0,
        off % a == 0,
    ensures
        align_to(off + x, a) == off + align_to(x, a),
{
    let q: int = (off / a) as int;
    vstd::arithmetic::div_mod::lemma_fundamental_div_mod(off as int, a as int);
    assert(off as int == a as int * q);
    vstd::arithmetic::div_mod::lemma_mod_multiples_vanish(q, x as int, a as int);
    assert(((off + x) as int) % (a as int) == (x as int) % (a as int));
}

proof fn lemma_find_type_named(types: Seq<ResolvedType>, name: Seq<char>)
    ensures
        find_type(types, name) matches Some(s) ==> s.name@ == name,
    decreases types.len(),
{
    if types.len() > 0 && types[0].name@ != name {
        lemma_find_type_named(types.drop_first(), name);
    }
}

proof fn lemma_write_known_ok(ty: ResolvedTypeRef, indent: Seq<char>, base: Seq<char>, off: nat, v: Seq<char>, ir: ValidatedIr)
    requires
        ty matches ResolvedTypeRef::UserDefined(n) ==> find_enum(ir.enums@, n@) is Some,
    ensures
        js_write(ty, indent, base, off, v, ir, layout_fuel(ir)) is Ok,
{
}

proof fn lemma_pack_ok(ty: ResolvedTypeRef, ap: Seq<char>, off: nat, v: Seq<char>, ir: ValidatedIr, k: nat, fuel: nat)
    requires
        struct_and_enum_names_distinct(ir),
        fuel <= layout_fuel(ir),
        js_size(ty, ir.types@, ir.enums@, fuel) matches Ok(sz) && fits(off + sz),
        js_align(ty, ir.types@, ir.enums@, fuel) matches Ok(a) && off % a == 0,
    ensures
        js_pack(ty, ap, off, v, ir, k, fuel) is Ok,
    decreases fuel, 0nat,
{
    match ty {
        ResolvedTypeRef::UserDefined(name) => {
            match find_type(ir.types@, name@) {
                Some(s) => {
                    assert(find_enum(ir.enums@, name@) is None);
                    let fl = (fuel - 1) as nat;
                    let p = js_size_fields(s.fields@, name@, ir.types@, ir.enums@, fl)->Ok_0;
                    lemma_size_fields_align_of(s.fields@, name@, ir.types@, ir.enums@, fl);
                    lemma_align_fields_pow2(s.fields@, ir.types@, ir.enums@, fl);
                    align_to_is_next_multiple(p.0, p.1);
                    lemma_pack_fields_ok(s.fields@, ap, off, v, name@, ir, k, fl);
                },
                None => {
                    lemma_write_known_ok(ty, "        "@, ap, off, v, ir);
                },
            }
        },
        _ => {
            lemma_write_known_ok(ty, "        "@, ap, off, v, ir);
        },
    }
}

proof fn lemma_pack_fields_ok(
    fs: Seq<ResolvedField>,
    ap: Seq<char>,
    off: nat,
    v: Seq<char>,
    sname: Seq<char>,
    ir: ValidatedIr,
    k: nat,
    fuel: nat,
)
    requires
        struct_and_enum_names_distinct(ir),
        fuel < layout_fuel(ir),
        js_size_fields(fs, sname, ir.types@, ir.enums@, fuel) matches Ok(p) && fits(off + p.0) && off % p.1 == 0,
    ensures
        js_pack_fields(fs, ap, off, v, sname, ir, k, fuel) matches Ok(r) && r.1 == off + (js_size_fields(fs, sname, ir.types@, ir.enums@, fuel)->Ok_0).0,
    decreases fuel, fs.len() + 1,
{
    if fs.len() > 0 {
        let p = js_size_fields(fs, sname, ir.types@, ir.enums@, fuel)->Ok_0;
        lemma_size_fields_align_of(fs, sname, ir.types@, ir.enums@, fuel);
        let q = js_size_fields(fs.drop_last(), sname, ir.types@, ir.enums@, fuel)->Ok_0;
        lemma_align_fields_pow2(fs, ir.types@, ir.enums@, fuel);
        lemma_align_fields_pow2(fs.drop_last(), ir.types@, ir.enums@, fuel);
        lemma_size_fields_align_of(fs.drop_last(), sname, ir.types@, ir.enums@, fuel);
        assert(off % q.1 == 0) by {
            lemma_pow2_divides(q.1, p.1);
            vstd::arithmetic::div_mod::lemma_fundamental_div_mod(off as int, p.1 as int);
            vstd::arithmetic::div_mod::lemma_fundamental_div_mod(p.1 as int, q.1 as int);
            let a: int = (off / p.1) as int;
            let b: int = (p.1 / q.1) as int;
            assert(off as int == q.1 * (b * a)) by (nonlinear_arith)
                requires
                    off as int == p.1 * a,
                    p.1 as int == q.1 * b,
            ;
            vstd::arithmetic::div_mod::lemma_mod_multiples_vanish(b * a, 0, q.1 as int);
        }
        lemma_pack_fields_ok(fs.drop_last(), ap, off, v, sname, ir, k, fuel);
        let last = fs.last();
        let a = js_align(last.ty, ir.types@, ir.enums@, fuel)->Ok_0;
        let sz = js_size(last.ty, ir.types@, ir.enums@, fuel)->Ok_0;
        lemma_align_pow2(last.ty, ir.types@, ir.enums@, fuel);
        assert(off % a == 0) by {
            lemma_pow2_divides(a, p.1);
            vstd::arithmetic::div_mod::lemma_fundamental_div_mod(off as int, p.1 as int);
            vstd::arithmetic::div_mod::lemma_fundamental_div_mod(p.1 as int, a as int);
            let x: int = (off / p.1) as int;
            let y: int = (p.1 / a) as int;
            assert(off as int == a * (y * x)) by (nonlinear_arith)
                requires
                    off as int == p.1 * x,
                    p.1 as int == a * y,
            ;
            vstd::arithmetic::div_mod::lemma_mod_multiples_vanish(y * x, 0, a as int);
        }
        lemma_align_shift(off, q.0, a);
        let o = align_to(q.0, a);
        align_to_is_next_multiple(q.0, a);
        align_to_is_next_multiple(off + q.0, a);
        lemma_align_mono(last.ty, ir.types@, ir.enums@, fuel, layout_fuel(ir));
        let prev = js_pack_fields(fs.drop_last(), ap, off, v, sname, ir, k, fuel)->Ok_0;
        lemma_pack_ok(last.ty, ap, off + o, v + "."@ + last.name@, ir, prev.2, fuel);
    }
}

proof fn lemma_multi_writes_ok(params: Seq<ResolvedParam>, fname: Seq<char>, ir: ValidatedIr)
    requires
        struct_and_enum_names_distinct(ir),
        deno_args_layout(params, fname, ir) is Ok,
    ensures
        ts_multi_writes(params, fname, ir) matches Ok(w) && w.1 == (deno_args_layout(params, fname, ir)->Ok_0).0,
        ts_slot_totals(params, fname, ir) == deno_args_layout(params, fname, ir),
    decreases params.len(),
{
    if params.len() > 0 {
        lemma_multi_writes_ok(params.drop_last(), fname, ir);
        let p = params.last();
        let a = js_align(p.ty, ir.types@, ir.enums@, layout_fuel(ir))->Ok_0;
        let sz = js_size(p.ty, ir.types@, ir.enums@, layout_fuel(ir))->Ok_0;
        caller_slot_is_c_layout(p.ty, ir);
        assert(js_slot(p.ty, ir) == Ok::<(nat, nat), Seq<char>>((sz, a)));
        let prev = ts_multi_writes(params.drop_last(), fname, ir)->Ok_0;
        lemma_align_pow2(p.ty, ir.types@, ir.enums@, layout_fuel(ir));
        let o = align_to(prev.1, a);
        align_to_is_next_multiple(prev.1, a);
        if let ResolvedTypeRef::UserDefined(nm) = p.ty {
            if find_enum(ir.enums@, nm@) is None {
                lemma_pack_ok(p.ty, "argsPtr"@, o, p.name@, ir, prev.2, layout_fuel(ir));
            }
        } else {
            lemma_write_known_ok(p.ty, "        "@, "argsPtr"@, o, p.name@, ir);
        }
        assert(ts_param_write(p, o, prev.2, ir) is Ok);
    }
}

/// Whenever a Deno host caller can lay out a function's arguments (`n`
/// bytes, padded C layout), a QuickJS guest caller of the same function with
/// two or more parameters builds its argument pack and allocates exactly `n`
/// bytes for it, provided no name is both a struct and an enum.
pub proof fn quickjs_caller_allocates_deno_size(f: ResolvedFunction, ir: ValidatedIr)
    requires
        f.params@.len() >= 2,
        struct_and_enum_names_distinct(ir),
    ensures
        deno_args_total(f, ir) matches Ok(n) ==> (ts_args_setup(f, ir) matches Ok(t) && t == "        const _argsBuf = _callerAlloc("@
            + crate::text::dec_digits(n) + ");\n"@ + TS_ARGS_PTR@ + (ts_multi_writes(f.params@, f.name@, ir)->Ok_0).0),
{
    if deno_args_total(f, ir) is Ok {
        lemma_multi_writes_ok(f.params@, f.name@, ir);
    }
}

} // verus!
