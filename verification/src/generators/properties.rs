//! What generated text says about its inputs: the provided contract keys and
//! function counts of a bundle manifest, the contract ids of `types.hpp`, the
//! version a Lua interface factory registers, the sign of a QuickJS read of a
//! signed integer, and the ABI builtin each builtin name resolves to.
use crate::generators::agreement::{lemma_factories_keep, lemma_factory_keep, lemma_infix_of_concat, lemma_infix_refl};
use crate::generators::cpp::{
    cpp_class, cpp_contract_ids, cpp_peer_caller, cpp_peer_fns, cpp_peer_head, cpp_enum, cpp_enum_entries, cpp_enums, cpp_struct, cpp_structs, cpp_type_fields, cpp_types_hpp,
};
use crate::generators::host_class_base;
use crate::generators::js_quickjs::{js_factory_head, js_plugin_interface_obj, js_read_prim, rd};
use crate::generators::lua::{
    lua_contract_upper, lua_dispatch_branches, lua_factory_name, lua_interface_factories, lua_interface_factories_file,
    lua_interface_factory,
};
use crate::generators::manifest::{
    bundle_manifest, contract_key, count_entries, find_char, lemma_find_char, provided_contracts, provides_key,
    provides_of, sort_unique, sort_unique_is_sorted_set,
};
use crate::ir::{
    ResolvedFunction, guest_contract_id_of, abi_builtin_named, AbiBuiltin, EnumDef, EnumVariant, PrimitiveType, ResolvedBundle, ResolvedContract, ResolvedField,
    ResolvedHostContract, ResolvedPlugin, ResolvedType, ValidatedIr,
};
use crate::text::{dec_digits, has_infix, hex_digit, hex_digits};
use vstd::prelude::*;

verus! {

// ─── Provided contract keys and function counts ─────────────────────────────

proof fn lemma_find_char_at(n: Seq<char>, c: char, rest: Seq<char>)
    requires
        !n.contains(c),
    ensures
        find_char(n + seq![c] + rest, c) == n.len(),
{
    let s = n + seq![c] + rest;
    lemma_find_char(s, c);
    let f = find_char(s, c);
    assert(s[n.len() as int] == c);
    if f < n.len() {
        assert(s[f] == n[f]);
        assert(n.contains(c));
    }
}

proof fn lemma_find_char_absent(s: Seq<char>, c: char)
    requires
        !s.contains(c),
    ensures
        find_char(s, c) == s.len(),
{
    lemma_find_char(s, c);
    if find_char(s, c) < s.len() {
        assert(s.contains(c));
    }
}

/// A contract reference `name@major.minor` provides the key `name@major`:
/// everything up to the first `.` after the `@`, so the major version stays
/// and the minor version goes.
pub proof fn provides_key_keeps_major(name: Seq<char>, major: Seq<char>, minor: Seq<char>)
    requires
        !name.contains('@'),
        !major.contains('.'),
    ensures
        provides_key(name + "@"@ + major + "."@ + minor) == name + "@"@ + major,
{
    reveal_strlit("@");
    reveal_strlit(".");
    let s = name + "@"@ + major + "."@ + minor;
    assert(s =~= name + seq!['@'] + (major + "."@ + minor));
    lemma_find_char_at(name, '@', major + "."@ + minor);
    let a = name.len() as int;
    assert(s.skip(a + 1) =~= major + seq!['.'] + minor);
    lemma_find_char_at(major, '.', minor);
    assert(s.take(a + 1 + major.len()) =~= name + "@"@ + major);
}

/// A reference without a `.` after its `@` (or without an `@`) is its own key.
pub proof fn provides_key_of_short_reference(s: Seq<char>)
    requires
        !s.contains('@') || !s.skip(find_char(s, '@') + 1).contains('.'),
    ensures
        provides_key(s) == s,
{
    lemma_find_char(s, '@');
    if s.contains('@') {
        if find_char(s, '@') == s.len() {
            let k = choose|k: int| 0 <= k < s.len() && s[k] == '@';
            assert(s[k] != '@');
        }
        lemma_find_char_absent(s.skip(find_char(s, '@') + 1), '.');
    } else {
        lemma_find_char_absent(s, '@');
    }
}

proof fn lemma_dec_digits_no_dot(n: nat)
    ensures
        !dec_digits(n).contains('.'),
{
    crate::ir::lemma_dec_digits_parse(n);
    let d = dec_digits(n);
    if d.contains('.') {
        let k = choose|k: int| 0 <= k < d.len() && d[k] == '.';
        assert(crate::ir::is_digit(d[k]));
    }
}

/// A contract's reference `name@major.minor` provides exactly its key.
pub proof fn provides_key_of_contract_reference(c: ResolvedContract, minor: Seq<char>)
    requires
        !c.name@.contains('@'),
    ensures
        provides_key(c.name@ + "@"@ + dec_digits(c.version.major as nat) + "."@ + minor) == contract_key(c),
{
    lemma_dec_digits_no_dot(c.version.major as nat);
    provides_key_keeps_major(c.name@, dec_digits(c.version.major as nat), minor);
}

/// The `function_count` entry of a contract.
pub open spec fn count_entry(c: ResolvedContract) -> Seq<char> {
    "\""@ + contract_key(c) + "\" = "@ + dec_digits((c.functions@.len() as u32) as nat)
}

proof fn lemma_count_entries_keep(cs: Seq<ResolvedContract>, c: ResolvedContract, x: Seq<char>)
    requires
        has_infix(count_entries(cs), x),
    ensures
        has_infix(count_entries(cs.push(c)), x),
{
    broadcast use lemma_infix_of_concat;
    assert(cs.push(c).drop_last() =~= cs);
    if cs.len() == 0 {
        let i = choose|i: int| 0 <= i && i + x.len() <= count_entries(cs).len() && #[trigger] count_entries(cs).subrange(i, i + x.len()) == x;
        assert(x.len() == 0);
        let t = count_entries(cs.push(c));
        assert(t.subrange(0, 0) =~= x);
    }
}

/// Every contract whose key is among the provided ones gets its entry in
/// `function_count`, with its number of functions.
pub proof fn provided_contract_is_counted(cs: Seq<ResolvedContract>, provided: Seq<Seq<char>>, i: int)
    requires
        0 <= i < cs.len(),
        provided.contains(contract_key(cs[i])),
    ensures
        has_infix(count_entries(provided_contracts(cs, provided)), count_entry(cs[i])),
    decreases cs.len(),
{
    broadcast use lemma_infix_of_concat, lemma_infix_refl;
    reveal_strlit("\"");
    let pc = provided_contracts(cs.drop_last(), provided);
    if i == cs.len() - 1 {
        let l = pc.push(cs.last());
        assert(l.drop_last() =~= pc);
        assert(l.last() == cs.last());
    } else {
        assert(cs.drop_last()[i] == cs[i]);
        provided_contract_is_counted(cs.drop_last(), provided, i);
        assert(count_entry(cs[i]).len() > 0);
        if provided.contains(contract_key(cs.last())) {
            let l = pc.push(cs.last());
            assert(l.drop_last() =~= pc);
            if pc.len() == 0 {
                assert(count_entries(pc) =~= Seq::<char>::empty());
            }
            lemma_count_entries_keep(pc, cs.last(), count_entry(cs[i]));
        }
    }
}

proof fn lemma_provides_of_contains(plugins: Seq<ResolvedPlugin>, j: int, k: int)
    requires
        0 <= j < plugins.len(),
        0 <= k < plugins[j].implements@.len(),
    ensures
        provides_of(plugins).contains(provides_key(plugins[j].implements@[k]@)),
    decreases plugins.len(),
{
    let prev = provides_of(plugins.drop_last());
    let mapped = plugins.last().implements@.map_values(|s: String| provides_key(s@));
    if j == plugins.len() - 1 {
        assert((prev + mapped)[prev.len() + k] == mapped[k]);
    } else {
        assert(plugins.drop_last()[j] == plugins[j]);
        lemma_provides_of_contains(plugins.drop_last(), j, k);
        let w = choose|w: int| 0 <= w < prev.len() && prev[w] == provides_key(plugins[j].implements@[k]@);
        assert((prev + mapped)[w] == prev[w]);
    }
}

/// When a plugin of the bundle implements `name@major.minor` for a contract
/// of that name and major version, the bundle's manifest counts that
/// contract's functions in `function_count` under the key `name@major`.
pub proof fn manifest_counts_implemented_contract(
    b: ResolvedBundle,
    contracts: Seq<ResolvedContract>,
    origin: Seq<char>,
    i: int,
    j: int,
    k: int,
    minor: Seq<char>,
)
    requires
        0 <= i < contracts.len(),
        0 <= j < b.plugins@.len(),
        0 <= k < b.plugins@[j].implements@.len(),
        !contracts[i].name@.contains('@'),
        b.plugins@[j].implements@[k]@ == contracts[i].name@ + "@"@ + dec_digits(contracts[i].version.major as nat) + "."@
            + minor,
    ensures
        has_infix(bundle_manifest(b, contracts, origin), count_entry(contracts[i])),
{
    broadcast use lemma_infix_of_concat;
    provides_key_of_contract_reference(contracts[i], minor);
    lemma_provides_of_contains(b.plugins@, j, k);
    let provided = sort_unique(provides_of(b.plugins@));
    sort_unique_is_sorted_set(provides_of(b.plugins@));
    assert(provided.contains(contract_key(contracts[i])));
    provided_contract_is_counted(contracts, provided, i);
}

// ─── Contract ids in types.hpp ──────────────────────────────────────────────

/// The value of one uppercase hexadecimal digit.
pub open spec fn hex_digit_value(c: char) -> int {
    if '0' <= c && c <= '9' {
        c as int - 48
    } else if 'A' <= c && c <= 'F' {
        c as int - 55
    } else {
        -1
    }
}

/// The number a run of uppercase hexadecimal digits denotes.
pub open spec fn hex_value(d: Seq<char>) -> int
    decreases d.len(),
{
    if d.len() == 0 {
        0
    } else {
        hex_value(d.drop_last()) * 16 + hex_digit_value(d.last())
    }
}

/// 16 to the power `n`.
pub open spec fn pow16(n: nat) -> nat
    decreases n,
{
    if n == 0 {
        1
    } else {
        16 * pow16((n - 1) as nat)
    }
}

/// `n` hexadecimal digits of a value below 16^n read back as that value.
pub proof fn hex_digits_read_back(v: nat, n: nat)
    requires
        v < pow16(n),
    ensures
        hex_digits(v, n).len() == n,
        hex_value(hex_digits(v, n)) == v,
    decreases n,
{
    if n > 0 {
        let p = pow16((n - 1) as nat);
        assert(v / 16 < p) by (nonlinear_arith)
            requires
                v < 16 * p,
        ;
        hex_digits_read_back(v / 16, (n - 1) as nat);
        let d = hex_digits(v, n);
        assert(d.drop_last() =~= hex_digits(v / 16, (n - 1) as nat));
        let r: nat = v % 16;
        assert(hex_digit(r) as int == if r < 10 { 48 + r } else { 55 + r });
        assert(hex_digit_value(hex_digit(r)) == r);
        assert((v / 16) * 16 + v % 16 == v) by (nonlinear_arith);
    }
}

proof fn lemma_pow16_16()
    ensures
        pow16(16) == 0x1_0000_0000_0000_0000,
{
    reveal_with_fuel(pow16, 17);
}

proof fn lemma_enum_entries_keep(acc: Seq<char>, e: EnumDef, vars: Seq<EnumVariant>, x: Seq<char>)
    requires
        has_infix(acc, x),
    ensures
        has_infix(cpp_enum_entries(acc, e, vars), x),
    decreases vars.len(),
{
    broadcast use lemma_infix_of_concat;
    if vars.len() > 0 {
        lemma_enum_entries_keep(acc, e, vars.drop_last(), x);
    }
}

proof fn lemma_enums_keep(acc: Seq<char>, enums: Seq<EnumDef>, x: Seq<char>)
    requires
        has_infix(acc, x),
    ensures
        has_infix(cpp_enums(acc, enums), x),
    decreases enums.len(),
{
    broadcast use lemma_infix_of_concat;
    if enums.len() > 0 {
        lemma_enums_keep(acc, enums.drop_last(), x);
        let prev = cpp_enums(acc, enums.drop_last());
        let e = enums.last();
        let r = crate::ir::repr_cpp_name(e.repr);
        let n = e.name@;
        lemma_enum_entries_keep(
            prev + "/// Enum `"@ + n + "` (repr: "@ + r + ")\n"@ + "enum class "@ + n + " : "@ + r + " {\n"@,
            e,
            e.variants@,
            x,
        );
    }
}

proof fn lemma_type_fields_keep(acc: Seq<char>, fields: Seq<ResolvedField>, x: Seq<char>)
    requires
        has_infix(acc, x),
    ensures
        has_infix(cpp_type_fields(acc, fields), x),
    decreases fields.len(),
{
    broadcast use lemma_infix_of_concat;
    if fields.len() > 0 {
        lemma_type_fields_keep(acc, fields.drop_last(), x);
    }
}

proof fn lemma_structs_keep(acc: Seq<char>, types: Seq<ResolvedType>, x: Seq<char>)
    requires
        has_infix(acc, x),
    ensures
        has_infix(cpp_structs(acc, types), x),
    decreases types.len(),
{
    broadcast use lemma_infix_of_concat;
    if types.len() > 0 {
        lemma_structs_keep(acc, types.drop_last(), x);
        let prev = cpp_structs(acc, types.drop_last());
        let ty = types.last();
        lemma_type_fields_keep(prev + "/// User-defined type `"@ + ty.name@ + "`\n"@ + "struct "@ + ty.name@ + " {\n"@, ty.fields@, x);
    }
}

/// The `types.hpp` line of a guest contract's id.
pub open spec fn cpp_contract_id_line(c: ResolvedContract) -> Seq<char> {
    "constexpr uint64_t "@ + lua_contract_upper(c.name@) + "_CONTRACT_ID = 0x"@ + hex_digits(c.contract_id as nat, 16) + ";\n"@
}

proof fn lemma_contract_ids_line(acc: Seq<char>, contracts: Seq<ResolvedContract>, i: int)
    requires
        0 <= i < contracts.len(),
    ensures
        has_infix(cpp_contract_ids(acc, contracts), cpp_contract_id_line(contracts[i])),
    decreases contracts.len(),
{
    broadcast use lemma_infix_of_concat, lemma_infix_refl;
    let prev = cpp_contract_ids(acc, contracts.drop_last());
    let c = contracts.last();
    assert(cpp_contract_ids(acc, contracts) =~= prev + cpp_contract_id_line(c));
    if i < contracts.len() - 1 {
        assert(contracts.drop_last()[i] == contracts[i]);
        lemma_contract_ids_line(acc, contracts.drop_last(), i);
    }
}

/// `types.hpp` declares, for every guest contract, the constant
/// `<NAME>_CONTRACT_ID` as `0x` and the 16 hexadecimal digits of the
/// contract's whole 64-bit id, which read back as that id.
pub proof fn cpp_types_declare_full_contract_ids(ir: ValidatedIr, i: int)
    requires
        0 <= i < ir.contracts@.len(),
    ensures
        has_infix(cpp_types_hpp(ir), cpp_contract_id_line(ir.contracts@[i])),
        hex_digits(ir.contracts@[i].contract_id as nat, 16).len() == 16,
        hex_value(hex_digits(ir.contracts@[i].contract_id as nat, 16)) == ir.contracts@[i].contract_id,
{
    broadcast use lemma_infix_of_concat;
    let x = cpp_contract_id_line(ir.contracts@[i]);
    let start = crate::generators::cpp::CPP_API_HEADER@ + "#include <cstdint>\n"@ + "#include \"polyplug/abi.hpp\"\n\n"@
        + "namespace polyplug_generated {\n\n"@;
    lemma_contract_ids_line(start, ir.contracts@, i);
    let ids = cpp_contract_ids(start, ir.contracts@) + "\n"@;
    lemma_enums_keep(ids, ir.enums@, x);
    lemma_structs_keep(cpp_enums(ids, ir.enums@), ir.types@, x);
    lemma_pow16_16();
    hex_digits_read_back(ir.contracts@[i].contract_id as nat, 16);
}

// ─── Versions in Lua interface factories ────────────────────────────────────

/// The lines of a Lua interface factory that set the contract version.
pub open spec fn lua_version_lines(c: ResolvedHostContract) -> Seq<char> {
    "    interface.contract_version.major = "@ + dec_digits(c.version.major as nat) + "\n"@
        + "    interface.contract_version.minor = "@ + dec_digits(c.version.minor as nat) + "\n"@
        + "    interface.contract_version.patch = "@ + dec_digits(c.version.patch as nat) + "\n"@
}

proof fn lemma_factory_version(acc: Seq<char>, contract: ResolvedHostContract, enums: Seq<EnumDef>)
    ensures
        has_infix(lua_interface_factory(acc, contract, enums), lua_version_lines(contract)),
{
    broadcast use lemma_infix_of_concat, lemma_infix_refl;
    let f = lua_factory_name(contract.name@);
    let class = host_class_base(contract.name@);
    let p = lua_dispatch_branches(
        acc + "-- Create a host contract interface for `"@ + contract.name@ + crate::generators::lua::LUA_FACTORY_DOC@ + "function M."@ + f
            + "(impl, lua_bridge_lib)\n"@ + "    if impl == nil then\n        error(\""@ + f + ": impl is nil\")\n    end\n"@
            + "    if lua_bridge_lib == nil then\n        error(\""@ + f
            + ": lua_bridge_lib is nil (pass the lua loader cdylib handle)\")\n    end\n\n"@ + crate::generators::lua::LUA_DISPATCH_START@,
        class,
        contract.functions@,
        enums,
    ) + crate::generators::lua::LUA_DISPATCH_END@ + "    interface.contract_id = 0x"@ + hex_digits(contract.contract_id as nat, 16)
        + "ULL\n"@;
    let s = p + "    interface.contract_version.major = "@ + dec_digits(contract.version.major as nat) + "\n"@
        + "    interface.contract_version.minor = "@ + dec_digits(contract.version.minor as nat) + "\n"@
        + "    interface.contract_version.patch = "@ + dec_digits(contract.version.patch as nat) + "\n"@;
    assert(s =~= p + lua_version_lines(contract));
}

proof fn lemma_factories_version(acc: Seq<char>, contracts: Seq<ResolvedHostContract>, enums: Seq<EnumDef>, c: int)
    requires
        0 <= c < contracts.len(),
    ensures
        has_infix(lua_interface_factories(acc, contracts, enums), lua_version_lines(contracts[c])),
    decreases contracts.len(),
{
    let prev = lua_interface_factories(acc, contracts.drop_last(), enums);
    if c == contracts.len() - 1 {
        lemma_factory_version(prev, contracts.last(), enums);
    } else {
        assert(contracts.drop_last()[c] == contracts[c]);
        lemma_factories_version(acc, contracts.drop_last(), enums, c);
        lemma_factory_keep(prev, contracts.last(), enums, lua_version_lines(contracts[c]));
    }
}

/// `host/interface_factories.lua` registers every host contract with its own
/// version: major, minor and patch, in that order, each the contract's
/// number in decimal, which reads back as that number.
pub proof fn lua_factory_registers_contract_version(ir: ValidatedIr, c: int)
    requires
        0 <= c < ir.host_contracts@.len(),
    ensures
        has_infix(lua_interface_factories_file(ir), lua_version_lines(ir.host_contracts@[c])),
        crate::ir::digits_value(dec_digits(ir.host_contracts@[c].version.major as nat)) == ir.host_contracts@[c].version.major,
        crate::ir::digits_value(dec_digits(ir.host_contracts@[c].version.minor as nat)) == ir.host_contracts@[c].version.minor,
        crate::ir::digits_value(dec_digits(ir.host_contracts@[c].version.patch as nat)) == ir.host_contracts@[c].version.patch,
{
    broadcast use lemma_infix_of_concat;
    let x = lua_version_lines(ir.host_contracts@[c]);
    let packs = crate::generators::lua::lua_host_packs(Seq::<char>::empty(), ir.host_contracts@, false, ir.enums@);
    let start = crate::generators::lua::LUA_FILE_HEADER@ + crate::generators::lua::LUA_FACTORIES_PREAMBLE@
        + crate::generators::lua::LUA_CDEF_GUARDED@ + crate::generators::lua::LUA_TRAMPOLINE_CDEFS@;
    let guarded = crate::generators::lua::lua_guarded_packs(start, packs, false) + crate::generators::lua::LUA_FACTORIES_ANCHORS@;
    lemma_factories_version(guarded, ir.host_contracts@, ir.enums@, c);
    crate::ir::lemma_dec_digits_parse(ir.host_contracts@[c].version.major as nat);
    crate::ir::lemma_dec_digits_parse(ir.host_contracts@[c].version.minor as nat);
    crate::ir::lemma_dec_digits_parse(ir.host_contracts@[c].version.patch as nat);
}

// ─── Signed reads in QuickJS ────────────────────────────────────────────────

/// JavaScript's `(x << s) >> s` on a non-negative integer `x`: `<<` works on
/// the low 32 bits taken as a signed 32-bit integer, `>>` shifts that right
/// keeping its sign.
pub open spec fn js_shl_sar(x: u32, s: u32) -> i32 {
    ((x << s) as i32) >> s
}

/// The value a `w`-bit two's-complement pattern `u` stands for.
pub open spec fn signed_of(u: int, w: nat) -> int {
    if u >= pow16(w / 4) / 2 {
        u - pow16(w / 4)
    } else {
        u
    }
}

/// A signed 8- or 16-bit read is the unsigned read of the same width,
/// sign-extended with `(x << s) >> s` (`s` = 24 or 16); and that
/// sign-extension turns every unsigned pattern of the width into the signed
/// value it stands for, so negative numbers read back negative.
pub proof fn js_signed_reads_sign_extend(base: Seq<char>, off: nat)
    ensures
        js_read_prim(PrimitiveType::I8, base, off) == "(("@ + js_read_prim(PrimitiveType::U8, base, off) + " << 24) >> 24)"@,
        js_read_prim(PrimitiveType::I16, base, off) == "(("@ + js_read_prim(PrimitiveType::U16, base, off) + " << 16) >> 16)"@,
        forall|u: u32| u < 0x100 ==> #[trigger] js_shl_sar(u, 24) as int == signed_of(u as int, 8),
        forall|u: u32| u < 0x10000 ==> #[trigger] js_shl_sar(u, 16) as int == signed_of(u as int, 16),
{
    reveal_with_fuel(pow16, 5);
    assert(pow16(2) == 256);
    assert(pow16(4) == 65536);
    assert forall|u: u32| u < 0x100 implies #[trigger] js_shl_sar(u, 24) as int == signed_of(u as int, 8) by {
        if u < 0x80 {
            assert(((u << 24u32) as i32) >> 24u32 == u as i32) by (bit_vector)
                requires
                    u < 0x80u32,
            ;
        } else {
            assert(((u << 24u32) as i32) >> 24u32 == (u as i32) - 256i32) by (bit_vector)
                requires
                    0x80u32 <= u < 0x100u32,
            ;
        }
    }
    assert forall|u: u32| u < 0x10000 implies #[trigger] js_shl_sar(u, 16) as int == signed_of(u as int, 16) by {
        if u < 0x8000 {
            assert(((u << 16u32) as i32) >> 16u32 == u as i32) by (bit_vector)
                requires
                    u < 0x8000u32,
            ;
        } else {
            assert(((u << 16u32) as i32) >> 16u32 == (u as i32) - 65536i32) by (bit_vector)
                requires
                    0x8000u32 <= u < 0x10000u32,
            ;
        }
    }
}

// ─── ABI builtin names ──────────────────────────────────────────────────────

/// The name an API description gives each ABI builtin.
pub open spec fn abi_builtin_name(b: AbiBuiltin) -> Seq<char> {
    match b {
        AbiBuiltin::StringView => "StringView"@,
        AbiBuiltin::Buffer => "Buffer"@,
        AbiBuiltin::Ptr => "Ptr"@,
        AbiBuiltin::Void => "Void"@,
    }
}

/// Each ABI builtin's name parses to that builtin, so the four names give
/// four different builtins; `ptr` and `void` are the same as `Ptr` and `Void`.
pub proof fn abi_builtin_names_parse_back(b: AbiBuiltin)
    ensures
        abi_builtin_named(abi_builtin_name(b)) == Some(b),
        abi_builtin_named("ptr"@) == Some(AbiBuiltin::Ptr),
        abi_builtin_named("void"@) == Some(AbiBuiltin::Void),
{
    reveal_strlit("StringView");
    reveal_strlit("Buffer");
    reveal_strlit("ptr");
    reveal_strlit("Ptr");
    reveal_strlit("void");
    reveal_strlit("Void");
    let n = abi_builtin_name(b);
    assert(n != "StringView"@ ==> n[0] != 'S');
    assert(n != "Buffer"@ ==> n[0] != 'B');
    assert(n != "ptr"@ && n != "Ptr"@ ==> n[0] != 'P');
    assert("void"@[0] != 'S' && "void"@[0] != 'B' && "void"@[0] != 'P');
    assert("ptr"@[0] != 'S' && "ptr"@[0] != 'B');
}


// ─── Contract ids split into 32-bit halves in QuickJS ───────────────────────

/// The low and high halves of a 64-bit id as two runs of 8 hexadecimal
/// digits, as the QuickJS interface objects write them.
pub open spec fn id_halves(id: u64) -> (Seq<char>, Seq<char>) {
    (hex_digits((id as nat) % 0x1_0000_0000, 8), hex_digits((id as nat) / 0x1_0000_0000, 8))
}

proof fn lemma_id_halves_read_back(id: u64)
    ensures
        hex_value(id_halves(id).0) + hex_value(id_halves(id).1) * 0x1_0000_0000 == id,
{
    reveal_with_fuel(pow16, 9);
    assert(pow16(8) == 0x1_0000_0000);
    let v = id as nat;
    assert(v / 0x1_0000_0000 < 0x1_0000_0000);
    hex_digits_read_back(v % 0x1_0000_0000, 8);
    hex_digits_read_back(v / 0x1_0000_0000, 8);
    assert((v % 0x1_0000_0000) + (v / 0x1_0000_0000) * 0x1_0000_0000 == v) by (nonlinear_arith);
}

/// A QuickJS plugin interface object carries the guest contract's id as
/// `contractLo` then `contractHi`, and the two halves read back as the id
/// computed from the contract's name and major version.
pub proof fn js_interface_carries_contract_id(acc: Seq<char>, pv: Seq<char>, c: ResolvedContract)
    ensures
        ({
            let id = guest_contract_id_of(c.name@, c.version.major);
            let h = id_halves(id);
            &&& has_infix(
                js_plugin_interface_obj(acc, pv, c),
                "    contractLo: 0x"@ + h.0 + ",\n"@ + "    contractHi: 0x"@ + h.1 + ",\n"@,
            )
            &&& hex_value(h.0) + hex_value(h.1) * 0x1_0000_0000 == id
        }),
{
    broadcast use lemma_infix_of_concat, lemma_infix_refl;
    let id = guest_contract_id_of(c.name@, c.version.major);
    let h = id_halves(id);
    let p = acc + "\nexport const "@ + pv + "_INTERFACE = {\n"@;
    let s = p + "    contractLo: 0x"@ + h.0 + ",\n"@ + "    contractHi: 0x"@ + h.1 + ",\n"@;
    assert(s =~= p + ("    contractLo: 0x"@ + h.0 + ",\n"@ + "    contractHi: 0x"@ + h.1 + ",\n"@));
    lemma_id_halves_read_back(id);
}

/// A QuickJS host interface factory carries the host contract's id as
/// `contractIdLo` then `contractIdHi`, and the two halves read back as the
/// contract's id.
pub proof fn js_factory_carries_contract_id(acc: Seq<char>, c: ResolvedHostContract)
    ensures
        ({
            let h = id_halves(c.contract_id);
            &&& has_infix(
                js_factory_head(acc, c),
                "        contractIdLo: 0x"@ + h.0 + ",\n"@ + "        contractIdHi: 0x"@ + h.1 + ",\n"@,
            )
            &&& hex_value(h.0) + hex_value(h.1) * 0x1_0000_0000 == c.contract_id
        }),
{
    broadcast use lemma_infix_of_concat, lemma_infix_refl;
    let h = id_halves(c.contract_id);
    let iface = host_class_base(c.name@);
    let p = acc + "/**\n * Build the host contract interface for `"@ + c.name@
        + "` (native dispatch, per-instance).\n * `factory` builds a fresh implementation per instance; the runtime calls it\n * once per non-singleton caller (independent state) or once for a singleton.\n */\n"@
        + "export function create"@ + iface + "Vtable(rt: Runtime, factory: () => contracts."@ + iface + ") {\n"@
        + "    return buildHostContractInterface({\n"@;
    let s = p + "        contractIdLo: 0x"@ + h.0 + ",\n"@ + "        contractIdHi: 0x"@ + h.1 + ",\n"@;
    assert(s =~= p + ("        contractIdLo: 0x"@ + h.0 + ",\n"@ + "        contractIdHi: 0x"@ + h.1 + ",\n"@));
    lemma_id_halves_read_back(c.contract_id);
}

/// The unsigned 16-bit read takes the byte at the offset as the low byte and
/// the next one as the high byte, and `b0 | (b1 << 8)` on two bytes is
/// `b0 + 256 * b1`.
pub proof fn js_u16_read_is_little_endian(base: Seq<char>, off: nat)
    ensures
        js_read_prim(PrimitiveType::U16, base, off) == "("@ + rd("readByte"@, base, off) + " | ("@ + rd("readByte"@, base, off + 1)
            + " << 8))"@,
        forall|b0: u32, b1: u32| b0 < 256 && b1 < 256 ==> #[trigger] (b0 | (b1 << 8u32)) == b0 + 256 * b1,
{
    assert forall|b0: u32, b1: u32| b0 < 256 && b1 < 256 implies #[trigger] (b0 | (b1 << 8u32)) == b0 + 256 * b1 by {
        assert((b0 | (b1 << 8u32)) == b0 + 256 * b1) by (bit_vector)
            requires
                b0 < 256u32,
                b1 < 256u32,
        ;
    }
}


// ─── C++ peer lookup ────────────────────────────────────────────────────────

broadcast proof fn lemma_infix_tail3(s: Seq<char>, a: Seq<char>, b: Seq<char>, c: Seq<char>)
    ensures
        #[trigger] has_infix(s + a + b + c, a + b + c),
{
    broadcast use lemma_infix_of_concat, lemma_infix_refl;
    assert(s + a + b + c =~= s + (a + b + c));
}

proof fn lemma_peer_fns_keep(acc: Seq<char>, class: Seq<char>, funcs: Seq<ResolvedFunction>, x: Seq<char>)
    requires
        has_infix(acc, x),
    ensures
        has_infix(cpp_peer_fns(acc, class, funcs), x),
    decreases funcs.len(),
{
    broadcast use lemma_infix_of_concat;
    if funcs.len() > 0 {
        lemma_peer_fns_keep(acc, class, funcs.drop_last(), x);
    }
}

/// A C++ peer caller looks its contract up by the contract's whole 64-bit id
/// followed by the minimum version the bundle declares for it.
pub proof fn cpp_peer_looks_up_id_and_min_version(acc: Seq<char>, c: ResolvedContract, min_version: u32)
    ensures
        has_infix(
            cpp_peer_caller(acc, c, min_version),
            hex_digits(c.contract_id as nat, 16) + "ULL, "@ + dec_digits(min_version as nat),
        ),
{
    broadcast use lemma_infix_of_concat, lemma_infix_tail3;
    let x = hex_digits(c.contract_id as nat, 16) + "ULL, "@ + dec_digits(min_version as nat);
    let head = cpp_peer_head(acc, c, min_version);
    assert(has_infix(head, x));
    let class = cpp_class(c.name@) + "Peer"@;
    lemma_peer_fns_keep(head, class, c.functions@, x);
}

} // verus!
