use polyplugc::generators::lua::{
    collect_lua_peer_contracts, generate_guest_host_contracts_file, generate_host_callers_file,
    generate_host_contract_caller, generate_host_contracts_file, generate_lua_enum,
    generate_lua_guest_host_contract_caller, generate_lua_guest_peer_caller,
    generate_lua_host_contract_metatable, generate_lua_host_dispatch_args,
    generate_lua_host_interface_factories_file, host_contract_name_to_lua_caller,
    host_contract_name_to_lua_class, lua_host_param_type_annotation,
    lua_host_return_type_annotation,
};
use polyplugc::ir::{
    AbiBuiltin, EnumDef, EnumVariant, PrimitiveType, ReprType, ResolvedBundle, ResolvedBundleFile,
    ResolvedContract, ResolvedDependency, ResolvedFunction, ResolvedHostContract, ResolvedParam,
    ResolvedPlugin, ResolvedTypeRef, ValidatedIr, Version,
};

fn pixel_format_enums() -> Vec<EnumDef> {
    vec![EnumDef {
        name: "PixelFormat".to_owned(),
        repr: ReprType::U32,
        bitflag: false,
        variants: vec![
            EnumVariant {
                name: "Unknown".to_owned(),
                value: "0".to_owned(),
            },
            EnumVariant {
                name: "Rgba8".to_owned(),
                value: "1".to_owned(),
            },
        ],
    }]
}

fn enum_codec_contract() -> ResolvedContract {
    ResolvedContract {
        name: "image.Codec".to_owned(),
        contract_id: 0x1111_2222_3333_4444_u64,
        version: polyplugc::ir::Version {
            major: 1,
            minor: 0,
            patch: 0,
        },
        functions: vec![
            ResolvedFunction {
                name: "set_format".to_owned(),
                function_id: 0,
                params: vec![ResolvedParam {
                    name: "fmt".to_owned(),
                    ty: ResolvedTypeRef::UserDefined("PixelFormat".to_owned()),
                }],
                returns: None,
            },
            ResolvedFunction {
                name: "get_format".to_owned(),
                function_id: 1,
                params: vec![],
                returns: Some(ResolvedTypeRef::UserDefined("PixelFormat".to_owned())),
            },
        ],
    }
}

fn assert_enum_caller_marshalling(out: &str) {
    // (i) single-enum param: repr-integer slot + address pass.
    assert!(
        out.contains("local fmt_val = ffi.new(\"uint32_t[1]\", fmt)"),
        "enum param must be written into a repr-integer slot: {out}"
    );
    assert!(
        out.contains("local args_ptr = ffi.cast(\"const void*\", fmt_val)"),
        "enum param must pass the slot's address: {out}"
    );
    assert!(
        !out.contains("ffi.cast(\"const void*\", fmt )")
            && !out.contains("ffi.cast(\"const void*\", fmt)"),
        "bare enum value must never be cast to void* (value-as-address): {out}"
    );
    // (ii) enum return: repr-integer out slot + tonumber() read-back.
    assert!(
        out.contains("local out_val = ffi.new(\"uint32_t[1]\")"),
        "enum return must allocate a repr-integer out slot: {out}"
    );
    assert!(
        out.contains("return tonumber(out_val[0])"),
        "enum return must be read back with tonumber(): {out}"
    );
    assert!(
        !out.contains("ffi.new(\"PixelFormat\""),
        "enum has no cdef'd C type — must use the repr integer: {out}"
    );
}

#[test]
fn generate_lua_enum_non_bitflag() {
    let e: EnumDef = EnumDef {
        name: "PixelFormat".to_owned(),
        repr: ReprType::U32,
        bitflag: false,
        variants: vec![
            EnumVariant {
                name: "Unknown".to_owned(),
                value: "0".to_owned(),
            },
            EnumVariant {
                name: "Rgba8".to_owned(),
                value: "1".to_owned(),
            },
        ],
    };
    let mut out: String = String::new();
    generate_lua_enum(&mut out, &e);
    assert!(
        out.contains("local PixelFormat = {"),
        "missing table def: {out}"
    );
    assert!(out.contains("Unknown = 0"), "missing Unknown: {out}");
}

#[test]
fn generate_lua_enum_bitflag_with_bit_library() {
    let e: EnumDef = EnumDef {
        name: "ImageFlags".to_owned(),
        repr: ReprType::U32,
        bitflag: true,
        variants: vec![
            EnumVariant {
                name: "None".to_owned(),
                value: "0".to_owned(),
            },
            EnumVariant {
                name: "Compressed".to_owned(),
                value: "1".to_owned(),
            },
            EnumVariant {
                name: "Hdr".to_owned(),
                value: "1 << 1".to_owned(),
            },
            EnumVariant {
                name: "CompressedHdr".to_owned(),
                value: "Compressed | Hdr".to_owned(),
            },
        ],
    };
    let mut out: String = String::new();
    generate_lua_enum(&mut out, &e);
    assert!(
        out.contains("local ImageFlags = {"),
        "missing table def: {out}"
    );
    assert!(
        out.contains("bit.lshift(1, 1)"),
        "missing bit.lshift for Hdr: {out}"
    );
    assert!(
        out.contains("bit.bor("),
        "missing bit.bor for CompressedHdr: {out}"
    );
}

#[test]
fn host_contract_name_to_lua_class_basic() {
    assert_eq!(host_contract_name_to_lua_class("host.logger"), "HostLogger");
}

#[test]
fn host_contract_name_to_lua_class_nested() {
    assert_eq!(
        host_contract_name_to_lua_class("host.fs.reader"),
        "HostFsReader"
    );
}

#[test]
fn host_contract_name_to_lua_class_already_has_host() {
    assert_eq!(
        host_contract_name_to_lua_class("host.HostLogger"),
        "HostLogger"
    );
}

#[test]
fn lua_host_param_type_stringview() {
    let ty: ResolvedTypeRef = ResolvedTypeRef::AbiType(AbiBuiltin::StringView);
    assert_eq!(lua_host_param_type_annotation(&ty), "string");
}

#[test]
fn lua_host_param_type_buffer() {
    let ty: ResolvedTypeRef = ResolvedTypeRef::AbiType(AbiBuiltin::Buffer);
    assert_eq!(lua_host_param_type_annotation(&ty), "string");
}

#[test]
fn lua_host_param_type_primitives() {
    assert_eq!(
        lua_host_param_type_annotation(&ResolvedTypeRef::Primitive(PrimitiveType::U32)),
        "number"
    );
    assert_eq!(
        lua_host_param_type_annotation(&ResolvedTypeRef::Primitive(PrimitiveType::I64)),
        "number"
    );
    assert_eq!(
        lua_host_param_type_annotation(&ResolvedTypeRef::Primitive(PrimitiveType::F64)),
        "number"
    );
    assert_eq!(
        lua_host_param_type_annotation(&ResolvedTypeRef::Primitive(PrimitiveType::Bool)),
        "number"
    );
}

#[test]
fn lua_host_return_type_stringview() {
    let ty: ResolvedTypeRef = ResolvedTypeRef::AbiType(AbiBuiltin::StringView);
    assert_eq!(lua_host_return_type_annotation(&ty), "string");
}

#[test]
fn lua_host_return_type_buffer() {
    let ty: ResolvedTypeRef = ResolvedTypeRef::AbiType(AbiBuiltin::Buffer);
    assert_eq!(lua_host_return_type_annotation(&ty), "string");
}

#[test]
fn generate_lua_host_contract_metatable_basic() {
    let contract: ResolvedHostContract = ResolvedHostContract {
        name: "host.logger".to_owned(),
        contract_id: 0x123456789ABCDEF0,
        version: polyplugc::ir::Version {
            major: 1,
            minor: 0,
            patch: 0,
        },
        singleton: false,
        functions: vec![ResolvedFunction {
            name: "log".to_owned(),
            function_id: 0,
            params: vec![
                ResolvedParam {
                    name: "level".to_owned(),
                    ty: ResolvedTypeRef::Primitive(PrimitiveType::U32),
                },
                ResolvedParam {
                    name: "message".to_owned(),
                    ty: ResolvedTypeRef::AbiType(AbiBuiltin::StringView),
                },
            ],
            returns: None,
        }],
    };
    let mut out: String = String::new();
    generate_lua_host_contract_metatable(&mut out, &contract);
    assert!(
        out.contains("HostLogger = {}"),
        "missing class table: {out}"
    );
    assert!(
        out.contains("HostLogger.__index = HostLogger"),
        "missing __index: {out}"
    );
    assert!(
        out.contains("function HostLogger:new()"),
        "missing new method: {out}"
    );
    assert!(
        out.contains("function HostLogger:log(level, message)"),
        "missing log method: {out}"
    );
    assert!(
        out.contains("error(\"abstract method: log must be implemented by host\", 2)"),
        "missing error: {out}"
    );
}

#[test]
fn generate_lua_host_contract_metatable_with_return() {
    let contract: ResolvedHostContract = ResolvedHostContract {
        name: "host.fs.reader".to_owned(),
        contract_id: 0xDEADBEEF,
        version: polyplugc::ir::Version {
            major: 1,
            minor: 0,
            patch: 0,
        },
        singleton: false,
        functions: vec![ResolvedFunction {
            name: "read".to_owned(),
            function_id: 0,
            params: vec![ResolvedParam {
                name: "path".to_owned(),
                ty: ResolvedTypeRef::AbiType(AbiBuiltin::StringView),
            }],
            returns: Some(ResolvedTypeRef::AbiType(AbiBuiltin::Buffer)),
        }],
    };
    let mut out: String = String::new();
    generate_lua_host_contract_metatable(&mut out, &contract);
    assert!(
        out.contains("HostFsReader = {}"),
        "missing class table: {out}"
    );
    assert!(
        out.contains("function HostFsReader:read(path)"),
        "missing read method: {out}"
    );
    assert!(
        out.contains("--- @return string"),
        "missing return annotation: {out}"
    );
}

#[test]
fn host_contract_name_to_lua_caller_basic() {
    assert_eq!(
        host_contract_name_to_lua_caller("host.logger"),
        "HostLoggerContract"
    );
}

#[test]
fn host_contract_name_to_lua_caller_nested() {
    assert_eq!(
        host_contract_name_to_lua_caller("host.fs.reader"),
        "HostFsReaderContract"
    );
}

#[test]
fn host_contract_name_to_lua_caller_already_has_host() {
    assert_eq!(
        host_contract_name_to_lua_caller("host.HostLogger"),
        "HostLoggerContract"
    );
}

#[test]
fn generate_lua_guest_host_contract_caller_basic() {
    let contract: ResolvedHostContract = ResolvedHostContract {
        name: "host.logger".to_owned(),
        contract_id: 0x123456789ABCDEF0,
        version: polyplugc::ir::Version {
            major: 1,
            minor: 0,
            patch: 0,
        },
        singleton: false,
        functions: vec![ResolvedFunction {
            name: "log".to_owned(),
            function_id: 0,
            params: vec![
                ResolvedParam {
                    name: "level".to_owned(),
                    ty: ResolvedTypeRef::Primitive(PrimitiveType::U32),
                },
                ResolvedParam {
                    name: "message".to_owned(),
                    ty: ResolvedTypeRef::AbiType(AbiBuiltin::StringView),
                },
            ],
            returns: None,
        }],
    };
    let mut out: String = String::new();
    generate_lua_guest_host_contract_caller(&mut out, &contract, &[]);
    assert!(
        out.contains("HostLoggerContract = {}"),
        "missing class table: {out}"
    );
    assert!(
        out.contains("HostLoggerContract.__index = HostLoggerContract"),
        "missing __index: {out}"
    );
    assert!(
        out.contains("function HostLoggerContract:new(interface, instance)"),
        "missing new method: {out}"
    );
    assert!(
        out.contains("function HostLoggerContract.from_host(host_ptr, min_version)"),
        "missing from_host: {out}"
    );
    assert!(
        out.contains("function HostLoggerContract:is_valid()"),
        "missing is_valid: {out}"
    );
    assert!(
        out.contains("function HostLoggerContract:log(level, message)"),
        "missing log method (colon syntax binds self implicitly — no explicit self param): {out}"
    );
    // Defect (a): the caller must cast to the canonical flat HostContractInterface,
    // never the nonexistent HostContractVTable, and read dispatch metadata directly.
    assert!(
        out.contains("ffi.cast(\"HostContractInterface*\", self._interface)"),
        "must cast to HostContractInterface: {out}"
    );
    assert!(
        !out.contains("HostContractVTable"),
        "must not reference the nonexistent HostContractVTable: {out}"
    );
    assert!(
        !out.contains(".header."),
        "must not read through a nonexistent .header field: {out}"
    );
    // VM dispatch uses the canonical 6-arg call(loader_data, instance, fn_id, args,
    // out, nil) — loader_data, not the old bridge_data field.
    assert!(
        out.contains("interface.dispatch.vm.call(interface.dispatch.vm.loader_data,"),
        "must call vm.call with loader_data: {out}"
    );
    assert!(
        !out.contains("bridge_data"),
        "must use loader_data, not bridge_data: {out}"
    );
    // from_host resolves the interface via resolve_host_contract_interface and the
    // instance via get_host_contract, matching the canonical Rust caller.
    assert!(
        out.contains("host.resolve_host_contract_interface(host,"),
        "from_host must resolve the interface vtable: {out}"
    );
    assert!(
        out.contains("host.get_host_contract(host,"),
        "from_host must obtain the per-instance state: {out}"
    );
    // host_ptr (a plain Lua number) must be cast through uintptr_t before use,
    // matching the host-caller path; a direct ffi.cast("HostApi*", number) is
    // rejected by LuaJIT as the first FFI argument.
    assert!(
        out.contains("ffi.cast(\"HostApi*\", ffi.cast(\"uintptr_t\", host_ptr))"),
        "from_host must cast host_ptr through uintptr_t: {out}"
    );
}

#[test]
fn generate_lua_guest_host_contract_caller_with_return() {
    let contract: ResolvedHostContract = ResolvedHostContract {
        name: "host.fs.reader".to_owned(),
        contract_id: 0xDEADBEEF,
        version: polyplugc::ir::Version {
            major: 1,
            minor: 0,
            patch: 0,
        },
        singleton: false,
        functions: vec![ResolvedFunction {
            name: "read".to_owned(),
            function_id: 0,
            params: vec![ResolvedParam {
                name: "path".to_owned(),
                ty: ResolvedTypeRef::AbiType(AbiBuiltin::StringView),
            }],
            returns: Some(ResolvedTypeRef::AbiType(AbiBuiltin::Buffer)),
        }],
    };
    let mut out: String = String::new();
    generate_lua_guest_host_contract_caller(&mut out, &contract, &[]);
    assert!(
        out.contains("HostFsReaderContract = {}"),
        "missing class table: {out}"
    );
    assert!(
        out.contains("function HostFsReaderContract:read(path)"),
        "missing read method (colon syntax binds self implicitly — no explicit self param): {out}"
    );
    assert!(
        out.contains("return out_val"),
        "missing return statement: {out}"
    );
}

#[test]
fn lua_host_caller_enum_param_and_return_use_repr_slots() {
    let mut out: String = String::new();
    generate_host_contract_caller(&mut out, &enum_codec_contract(), &pixel_format_enums());
    assert_enum_caller_marshalling(&out);
}

#[test]
fn lua_peer_caller_enum_param_and_return_use_repr_slots() {
    let mut out: String = String::new();
    generate_lua_guest_peer_caller(&mut out, &enum_codec_contract(), 1, &pixel_format_enums());
    assert_enum_caller_marshalling(&out);
}

#[test]
fn lua_guest_host_contract_caller_enum_param_and_return_use_repr_slots() {
    let contract: ResolvedHostContract = ResolvedHostContract {
        name: "host.theme".to_owned(),
        contract_id: 0xDEAD_BEEF_u64,
        version: polyplugc::ir::Version {
            major: 1,
            minor: 0,
            patch: 0,
        },
        singleton: false,
        functions: vec![
            ResolvedFunction {
                name: "set_mode".to_owned(),
                function_id: 0,
                params: vec![ResolvedParam {
                    name: "fmt".to_owned(),
                    ty: ResolvedTypeRef::UserDefined("PixelFormat".to_owned()),
                }],
                returns: None,
            },
            ResolvedFunction {
                name: "get_mode".to_owned(),
                function_id: 1,
                params: vec![],
                returns: Some(ResolvedTypeRef::UserDefined("PixelFormat".to_owned())),
            },
        ],
    };
    let mut out: String = String::new();
    generate_lua_guest_host_contract_caller(&mut out, &contract, &pixel_format_enums());
    assert_enum_caller_marshalling(&out);
}

#[test]
fn lua_host_caller_single_scalar_param_uses_array_slot() {
    let contract: ResolvedContract = ResolvedContract {
        name: "counter.Inc".to_owned(),
        contract_id: 0x5555_6666_u64,
        version: polyplugc::ir::Version {
            major: 1,
            minor: 0,
            patch: 0,
        },
        functions: vec![ResolvedFunction {
            name: "inc".to_owned(),
            function_id: 0,
            params: vec![ResolvedParam {
                name: "amount".to_owned(),
                ty: ResolvedTypeRef::Primitive(PrimitiveType::U32),
            }],
            returns: None,
        }],
    };
    let mut out: String = String::new();
    generate_host_contract_caller(&mut out, &contract, &[]);
    assert!(
        out.contains("local amount_val = ffi.new(\"uint32_t[1]\", amount)"),
        "scalar param must use a 1-element array slot: {out}"
    );
    assert!(
        !out.contains("ffi.new(\"uint32_t\", amount)"),
        "scalar value cdata cast to void* is value-as-address: {out}"
    );
}

fn host_logger_ir() -> ValidatedIr {
    ValidatedIr {
        types: vec![],
        enums: vec![EnumDef {
            name: "LogLevel".to_owned(),
            repr: ReprType::U32,
            bitflag: false,
            variants: vec![EnumVariant {
                name: "Info".to_owned(),
                value: "1".to_owned(),
            }],
        }],
        contracts: vec![],
        host_contracts: vec![ResolvedHostContract {
            name: "host.logger".to_owned(),
            contract_id: 0x1234_5678_9ABC_DEF0_u64,
            version: polyplugc::ir::Version {
                major: 1,
                minor: 0,
                patch: 0,
            },
            singleton: false,
            functions: vec![
                ResolvedFunction {
                    name: "log".to_owned(),
                    function_id: 0,
                    params: vec![ResolvedParam {
                        name: "message".to_owned(),
                        ty: ResolvedTypeRef::AbiType(AbiBuiltin::StringView),
                    }],
                    returns: None,
                },
                ResolvedFunction {
                    name: "log_with_level".to_owned(),
                    function_id: 1,
                    params: vec![
                        ResolvedParam {
                            name: "level".to_owned(),
                            ty: ResolvedTypeRef::UserDefined("LogLevel".to_owned()),
                        },
                        ResolvedParam {
                            name: "message".to_owned(),
                            ty: ResolvedTypeRef::AbiType(AbiBuiltin::StringView),
                        },
                    ],
                    returns: None,
                },
            ],
        }],
        bundle: None,
    }
}

#[test]
fn generate_host_contracts_file_empty() {
    let ir: ValidatedIr = ValidatedIr {
        types: vec![],
        enums: vec![],
        contracts: vec![],
        host_contracts: vec![],
        bundle: None,
    };
    let result: String = generate_host_contracts_file(&ir);
    assert!(result.contains("local M = {}"));
    assert!(result.contains("return M"));
    assert!(!result.contains("HostLogger"));
}

#[test]
fn generate_host_contracts_file_with_contract() {
    let contract: ResolvedHostContract = ResolvedHostContract {
        name: "host.logger".to_owned(),
        contract_id: 0x123456789ABCDEF0,
        version: polyplugc::ir::Version {
            major: 1,
            minor: 0,
            patch: 0,
        },
        singleton: false,
        functions: vec![ResolvedFunction {
            name: "log".to_owned(),
            function_id: 0,
            params: vec![],
            returns: None,
        }],
    };
    let ir: ValidatedIr = ValidatedIr {
        types: vec![],
        enums: vec![],
        contracts: vec![],
        host_contracts: vec![contract],
        bundle: None,
    };
    let result: String = generate_host_contracts_file(&ir);
    assert!(result.contains("HostLogger = {}"));
    assert!(result.contains("M.HOSTLOGGER_CONTRACT_ID = 0x123456789ABCDEF0ULL"));
    assert!(result.contains("M.HostLogger = HostLogger"));
}

#[test]
fn generate_guest_host_contracts_file_empty() {
    let ir: ValidatedIr = ValidatedIr {
        types: vec![],
        enums: vec![],
        contracts: vec![],
        host_contracts: vec![],
        bundle: None,
    };
    let result: String = generate_guest_host_contracts_file(&ir);
    assert!(result.contains("local ffi = require(\"ffi\")"));
    assert!(result.contains("local M = {}"));
    assert!(result.contains("return M"));
    assert!(!result.contains("HostLoggerContract"));
}

#[test]
fn generate_guest_host_contracts_file_with_contract() {
    let contract: ResolvedHostContract = ResolvedHostContract {
        name: "host.logger".to_owned(),
        contract_id: 0x123456789ABCDEF0,
        version: polyplugc::ir::Version {
            major: 1,
            minor: 0,
            patch: 0,
        },
        singleton: false,
        functions: vec![ResolvedFunction {
            name: "log".to_owned(),
            function_id: 0,
            params: vec![],
            returns: None,
        }],
    };
    let ir: ValidatedIr = ValidatedIr {
        types: vec![],
        enums: vec![],
        contracts: vec![],
        host_contracts: vec![contract],
        bundle: None,
    };
    let result: String = generate_guest_host_contracts_file(&ir);
    assert!(result.contains("HostLoggerContract = {}"));
    assert!(result.contains("M.HOSTLOGGERCONTRACT_ID = 0x123456789ABCDEF0ULL"));
    assert!(result.contains("M.HostLoggerContract = HostLoggerContract"));
}

#[test]
fn lua_peer_caller_emitted_for_declared_dependency() {

    let contract: ResolvedContract = ResolvedContract {
        name: "pipeline.Validator".to_owned(),
        contract_id: 0xAAAA_BBBB_CCCC_DDDD_u64,
        version: Version {
            major: 1,
            minor: 0,
            patch: 0,
        },
        functions: vec![ResolvedFunction {
            name: "validate".to_owned(),
            function_id: 0,
            params: vec![ResolvedParam {
                name: "input".to_owned(),
                ty: ResolvedTypeRef::AbiType(AbiBuiltin::StringView),
            }],
            returns: Some(ResolvedTypeRef::AbiType(AbiBuiltin::StringView)),
        }],
    };

    let ir: ValidatedIr = ValidatedIr {
        types: vec![],
        enums: vec![],
        contracts: vec![contract],
        host_contracts: vec![],
        bundle: Some(ResolvedBundle {
            name: "test.bundle".to_owned(),
            version: Version {
                major: 1,
                minor: 0,
                patch: 0,
            },
            loader: "lua".to_owned(),
                runtime: "lua".to_owned(),
            file: ResolvedBundleFile::Single("test.lua".to_owned()),
            plugins: vec![ResolvedPlugin {
                name: "test_plugin".to_owned(),
                version: Version {
                    major: 1,
                    minor: 0,
                    patch: 0,
                },
                implements: vec!["data.Transformer@1.0".to_owned()],
                optional: vec![],
            }],
            bundle_id: 0x1234_5678_9ABC_DEF0_u64,
            dependencies: vec![ResolvedDependency::ByContract {
                contract: "pipeline.Validator".to_owned(),
                contract_id: 0xAAAA_BBBB_CCCC_DDDD_u64,
                min_version: 1,
            }],
            needs_reinit_on_dep_reload: false,
        }),
    };

    let peers: Vec<&ResolvedContract> = collect_lua_peer_contracts(&ir);
    assert!(
        !peers.is_empty(),
        "should find peer contract for declared dependency"
    );

    let mut out: String = String::new();
    generate_lua_guest_peer_caller(&mut out, peers[0], 1, &ir.enums);

    assert!(
        out.contains("PipelineValidatorPeer = {}"),
        "missing peer class table: {out}"
    );
    assert!(
        out.contains("PipelineValidatorPeer.__index = PipelineValidatorPeer"),
        "missing __index: {out}"
    );
    assert!(
        out.contains("function PipelineValidatorPeer.resolve()"),
        "missing resolve factory: {out}"
    );
    assert!(
        out.contains("polyplug_guest.get_host_interface()"),
        "resolve must use polyplug_guest.get_host_interface(): {out}"
    );
    assert!(
        out.contains("ffi.cast(\"HostApi*\", ffi.cast(\"uintptr_t\", host_ptr))"),
        "host_ptr must be cast through uintptr_t: {out}"
    );
    assert!(
        out.contains("host.find_guest_contract(host,"),
        "must call find_guest_contract: {out}"
    );
    assert!(
        out.contains("host.resolve_guest_contract(host, handle)"),
        "must call resolve_guest_contract: {out}"
    );
    assert!(
        out.contains("interface.create_instance(host, nil)"),
        "must call create_instance: {out}"
    );
    assert!(
        out.contains("function PipelineValidatorPeer:validate(input)"),
        "missing validate method: {out}"
    );
    assert!(
        out.contains("call_guest_method(self._host, self._instance,"),
        "method must dispatch via call_guest_method: {out}"
    );
    // Arena must be nil — Lua peer callers have no per-caller CallArena.
    assert!(
        out.contains(", nil)"),
        "call_guest_method must pass nil arena: {out}"
    );
    assert!(
        out.contains("return out_val"),
        "missing return statement: {out}"
    );
}

#[test]
fn lua_no_peer_callers_without_dependencies() {

    let contract: ResolvedContract = ResolvedContract {
        name: "pipeline.Validator".to_owned(),
        contract_id: 0xAAAA_BBBB_CCCC_DDDD_u64,
        version: Version {
            major: 1,
            minor: 0,
            patch: 0,
        },
        functions: vec![],
    };

    // No bundle at all — no peer contracts.
    let ir_no_bundle: ValidatedIr = ValidatedIr {
        types: vec![],
        enums: vec![],
        contracts: vec![contract],
        host_contracts: vec![],
        bundle: None,
    };
    let peers: Vec<&ResolvedContract> = collect_lua_peer_contracts(&ir_no_bundle);
    assert!(
        peers.is_empty(),
        "should produce no peers when there is no bundle"
    );

    // Bundle with no dependencies — no peer contracts even if contracts exist.

    let contract2: ResolvedContract = ResolvedContract {
        name: "pipeline.Validator".to_owned(),
        contract_id: 0xAAAA_BBBB_CCCC_DDDD_u64,
        version: Version {
            major: 1,
            minor: 0,
            patch: 0,
        },
        functions: vec![],
    };
    let ir_no_deps: ValidatedIr = ValidatedIr {
        types: vec![],
        enums: vec![],
        contracts: vec![contract2],
        host_contracts: vec![],
        bundle: Some(ResolvedBundle {
            name: "test.bundle".to_owned(),
            version: Version {
                major: 1,
                minor: 0,
                patch: 0,
            },
            loader: "lua".to_owned(),
                runtime: "lua".to_owned(),
            file: ResolvedBundleFile::Single("test.lua".to_owned()),
            plugins: vec![ResolvedPlugin {
                name: "test_plugin".to_owned(),
                version: Version {
                    major: 1,
                    minor: 0,
                    patch: 0,
                },
                implements: vec!["data.Transformer@1.0".to_owned()],
                optional: vec![],
            }],
            bundle_id: 0x1234_5678_9ABC_DEF0_u64,
            dependencies: vec![],
            needs_reinit_on_dep_reload: false,
        }),
    };
    let peers2: Vec<&ResolvedContract> = collect_lua_peer_contracts(&ir_no_deps);
    assert!(
        peers2.is_empty(),
        "should produce no peers when bundle has no declared dependencies"
    );
}

#[test]
fn host_out_setup_scalar_u32_emits_array_slot() {
    // A u32 return is scalar: out slot must be ffi.new("uint32_t[1]") and
    // the caller must read back with out_val[0].

    let func: ResolvedFunction = ResolvedFunction {
        name: "get_count".to_owned(),
        function_id: 0,
        params: vec![],
        returns: Some(ResolvedTypeRef::Primitive(PrimitiveType::U32)),
    };
    let contract: ResolvedContract = ResolvedContract {
        name: "data.Counter".to_owned(),
        contract_id: 0x1111_2222_3333_4444_u64,
        version: Version {
            major: 1,
            minor: 0,
            patch: 0,
        },
        functions: vec![func],
    };
    let ir: ValidatedIr = ValidatedIr {
        types: vec![],
        enums: vec![],
        contracts: vec![contract],
        host_contracts: vec![],
        bundle: None,
    };
    let out: String = generate_host_callers_file(&ir);
    assert!(
        out.contains("ffi.new(\"uint32_t[1]\")"),
        "scalar u32 return must use a 1-element array slot: {out}"
    );
    assert!(
        out.contains("return out_val[0]"),
        "scalar u32 return must read result with out_val[0]: {out}"
    );
    assert!(
        !out.contains("ffi.new(\"uint32_t\")"),
        "scalar u32 must NOT use a bare value slot (would yield NULL out_ptr): {out}"
    );
}

#[test]
fn host_out_setup_string_view_keeps_struct_slot() {
    // A StringView return is a struct (reference cdata): out slot must stay
    // ffi.new("StringView") and the caller must return the raw handle.

    let func: ResolvedFunction = ResolvedFunction {
        name: "get_name".to_owned(),
        function_id: 0,
        params: vec![],
        returns: Some(ResolvedTypeRef::AbiType(AbiBuiltin::StringView)),
    };
    let contract: ResolvedContract = ResolvedContract {
        name: "data.Namer".to_owned(),
        contract_id: 0xAAAA_BBBB_1111_2222_u64,
        version: Version {
            major: 1,
            minor: 0,
            patch: 0,
        },
        functions: vec![func],
    };
    let ir: ValidatedIr = ValidatedIr {
        types: vec![],
        enums: vec![],
        contracts: vec![contract],
        host_contracts: vec![],
        bundle: None,
    };
    let out: String = generate_host_callers_file(&ir);
    assert!(
        out.contains("ffi.new(\"StringView\")"),
        "StringView return must use a bare struct slot: {out}"
    );
    assert!(
        !out.contains("ffi.new(\"StringView[1]\")"),
        "StringView must NOT use an array slot: {out}"
    );
    // "return out_val" is the expected form; "return out_val[0]" must NOT appear.
    assert!(
        !out.contains("return out_val[0]"),
        "StringView return must NOT use out_val[0]: {out}"
    );
    assert!(
        out.contains("return out_val"),
        "StringView return must use return out_val: {out}"
    );
}

#[test]
fn lua_host_interface_factory_uses_real_abi_struct() {
    let out: String = generate_lua_host_interface_factories_file(&host_logger_ir());
    assert!(
        out.contains("ffi.new(\"HostContractInterface\")"),
        "factory must build the real ABI struct: {out}"
    );
    assert!(
        !out.contains("HostContractVTable"),
        "fictional HostContractVTable must be gone: {out}"
    );
    assert!(
        !out.contains("interface.header"),
        "HostContractInterface has no header wrapper: {out}"
    );
    assert!(
        out.contains("interface.contract_version.major = 1"),
        "version must be set on the real field: {out}"
    );
    assert!(
        out.contains("interface.singleton = 0  -- multi-instance"),
        "singleton must be a numeric uint8_t value: {out}"
    );
    assert!(
        out.contains(
            "interface.dispatch.vm.call = lua_bridge_lib.polyplug_lua_host_vm_dispatch"
        ),
        "dispatch must route through the lua loader trampoline: {out}"
    );
    assert!(
        out.contains(
            "interface.create_instance = lua_bridge_lib.polyplug_lua_host_create_instance"
        ),
        "create_instance must use the native stub: {out}"
    );
}

#[test]
fn lua_host_interface_factory_cdefs_arg_pack_structs() {
    let out: String = generate_lua_host_interface_factories_file(&host_logger_ir());
    assert!(
        out.contains("} HostLoggerLogWithLevelArgs;"),
        "arg-pack struct must be cdef'd in the factories file: {out}"
    );
    assert!(
        out.contains("ffi.cast(\"const HostLoggerLogWithLevelArgs*\", args)"),
        "dispatcher must cast to the cdef'd pack struct: {out}"
    );
    assert!(
        !out.contains("LOG_WITH_LEVELArgs"),
        "uppercased never-cdef'd pack name must be gone: {out}"
    );
}

#[test]
fn lua_host_interface_factory_enum_fields_use_repr_ctype() {
    let out: String = generate_lua_host_interface_factories_file(&host_logger_ir());
    assert!(
        out.contains("uint32_t level;"),
        "enum pack fields must use the repr C type: {out}"
    );
    assert!(
        !out.contains("LogLevel level;"),
        "enum pack fields must not name the (never-cdef'd) enum: {out}"
    );
}

#[test]
fn lua_host_dispatch_single_enum_param_uses_repr_ctype() {
    let enums: Vec<EnumDef> = vec![EnumDef {
        name: "LogLevel".to_owned(),
        repr: ReprType::U32,
        bitflag: false,
        variants: vec![EnumVariant {
            name: "Info".to_owned(),
            value: "1".to_owned(),
        }],
    }];
    let func: ResolvedFunction = ResolvedFunction {
        name: "set_level".to_owned(),
        function_id: 0,
        params: vec![ResolvedParam {
            name: "level".to_owned(),
            ty: ResolvedTypeRef::UserDefined("LogLevel".to_owned()),
        }],
        returns: None,
    };
    let mut out: String = String::new();
    generate_lua_host_dispatch_args(&mut out, "HostLogger", &func, &enums);
    assert!(
        out.contains("ffi.cast(\"const uint32_t*\", args)[0]"),
        "single enum param must cast to the repr C type: {out}"
    );
    assert!(
        !out.contains("const LogLevel*"),
        "the enum name has no cdef and must not be cast to: {out}"
    );
}

#[test]
fn lua_host_interface_factory_emits_valid_lua_syntax() {
    let out: String = generate_lua_host_interface_factories_file(&host_logger_ir());
    assert!(
        !out.contains(": userdata"),
        "type-annotation syntax is not Lua: {out}"
    );
    assert!(
        out.contains("local level = packed.level"),
        "pack fields must be extracted with plain assignments: {out}"
    );
    // Every generated factory line must survive a Lua parse: no `local x: T`.
    for line in out.lines() {
        let trimmed: &str = line.trim_start();
        if let Some(rest) = trimmed.strip_prefix("local ") {
            assert!(
                !rest
                    .split('=')
                    .next()
                    .is_some_and(|lhs: &str| lhs.contains(':')),
                "invalid Lua type annotation in generated line: {line}"
            );
        }
    }
}

