use polyplugc::generators::js_quickjs::{
    emit_ts_guest_host_contract_args_setup, emit_ts_guest_host_contract_out_setup, emit_ts_guest_host_contract_readback,
    generate_callers_ts, generate_guest_host_contracts_ts, generate_host_contracts_ts, generate_js_host_interface_factories_ts,
    generate_js_quickjs_enum, generate_ts_guest_host_contract_caller, generate_ts_host_contract_interface,
    host_contract_name_to_ts_caller, host_contract_name_to_ts_interface, render_plugin_interface_quickjs,
    ts_guest_caller_param_type, ts_host_param_type, ts_host_return_type, JsQuickjsGenerator,
};
use polyplugc::generators::{CodeGenerator, GeneratedFile, GeneratedFiles};
use polyplugc::ir::{
    AbiBuiltin, EnumDef, EnumVariant, PrimitiveType, ReprType, ResolvedBundle, ResolvedBundleFile, ResolvedContract,
    ResolvedDependency, ResolvedField, ResolvedFunction, ResolvedHostContract, ResolvedParam, ResolvedType,
    ResolvedTypeRef, ValidatedIr, Version, guest_contract_id,
};

fn wrapper_ir(types: Vec<ResolvedType>, enums: Vec<EnumDef>) -> ValidatedIr {
    ValidatedIr {
        types,
        enums,
        contracts: vec![],
        host_contracts: vec![],
        bundle: None,
    }
}

fn wrapper_contract(functions: Vec<ResolvedFunction>) -> ResolvedContract {
    ResolvedContract {
        name: "test.shapes".to_owned(),
        contract_id: guest_contract_id("test.shapes", 1),
        version: Version {
            major: 1,
            minor: 0,
            patch: 0,
        },
        functions,
    }
}

fn render_wrapper(contract: &ResolvedContract, ir: &ValidatedIr) -> String {
    let mut out: String = String::new();
    render_plugin_interface_quickjs(&mut out, "shapes_plugin", contract, ir)
        .expect("render_plugin_interface_quickjs");
    out
}

fn pixel_format_enums() -> Vec<EnumDef> {
    vec![EnumDef {
        name: "PixelFormat".to_owned(),
        repr: ReprType::U32,
        bitflag: false,
        variants: vec![EnumVariant {
            name: "Rgba8".to_owned(),
            value: "1".to_owned(),
        }],
    }]
}

fn deno_shapes_ir() -> ValidatedIr {
    ValidatedIr {
        types: vec![ResolvedType {
            name: "Pair".to_owned(),
            fields: vec![
                ResolvedField {
                    name: "a".to_owned(),
                    ty: ResolvedTypeRef::Primitive(PrimitiveType::U32),
                },
                ResolvedField {
                    name: "b".to_owned(),
                    ty: ResolvedTypeRef::Primitive(PrimitiveType::I64),
                },
            ],
        }],
        enums: vec![EnumDef {
            name: "Color".to_owned(),
            repr: ReprType::U32,
            bitflag: false,
            variants: vec![EnumVariant {
                name: "Red".to_owned(),
                value: "1".to_owned(),
            }],
        }],
        contracts: vec![ResolvedContract {
            name: "test.shapes".to_owned(),
            contract_id: 0x0011_2233_4455_6677_u64,
            version: Version {
                major: 1,
                minor: 0,
                patch: 0,
            },
            functions: vec![
                ResolvedFunction {
                    name: "mix".to_owned(),
                    function_id: 0,
                    params: vec![
                        ResolvedParam {
                            name: "n".to_owned(),
                            ty: ResolvedTypeRef::Primitive(PrimitiveType::U32),
                        },
                        ResolvedParam {
                            name: "big".to_owned(),
                            ty: ResolvedTypeRef::Primitive(PrimitiveType::U64),
                        },
                        ResolvedParam {
                            name: "c".to_owned(),
                            ty: ResolvedTypeRef::UserDefined("Color".to_owned()),
                        },
                        ResolvedParam {
                            name: "s".to_owned(),
                            ty: ResolvedTypeRef::AbiType(AbiBuiltin::StringView),
                        },
                    ],
                    returns: Some(ResolvedTypeRef::AbiType(AbiBuiltin::StringView)),
                },
                ResolvedFunction {
                    name: "take_struct".to_owned(),
                    function_id: 1,
                    params: vec![ResolvedParam {
                        name: "p".to_owned(),
                        ty: ResolvedTypeRef::UserDefined("Pair".to_owned()),
                    }],
                    returns: Some(ResolvedTypeRef::Primitive(PrimitiveType::U32)),
                },
                ResolvedFunction {
                    name: "get_struct".to_owned(),
                    function_id: 2,
                    params: vec![],
                    returns: Some(ResolvedTypeRef::UserDefined("Pair".to_owned())),
                },
                ResolvedFunction {
                    name: "get_color".to_owned(),
                    function_id: 3,
                    params: vec![],
                    returns: Some(ResolvedTypeRef::UserDefined("Color".to_owned())),
                },
            ],
        }],
        host_contracts: vec![],
        bundle: None,
    }
}

fn deno_host_provider_shapes_ir() -> ValidatedIr {
    let base: ValidatedIr = deno_shapes_ir();
    ValidatedIr {
        types: base.types,
        enums: base.enums,
        contracts: vec![],
        host_contracts: vec![ResolvedHostContract {
            name: "host.shapes".to_owned(),
            contract_id: 0x0011_2233_4455_6677_u64,
            version: Version {
                major: 1,
                minor: 0,
                patch: 0,
            },
            singleton: false,
            functions: vec![
                ResolvedFunction {
                    name: "mix".to_owned(),
                    function_id: 0,
                    params: vec![
                        ResolvedParam {
                            name: "n".to_owned(),
                            ty: ResolvedTypeRef::Primitive(PrimitiveType::U32),
                        },
                        ResolvedParam {
                            name: "big".to_owned(),
                            ty: ResolvedTypeRef::Primitive(PrimitiveType::U64),
                        },
                        ResolvedParam {
                            name: "c".to_owned(),
                            ty: ResolvedTypeRef::UserDefined("Color".to_owned()),
                        },
                        ResolvedParam {
                            name: "s".to_owned(),
                            ty: ResolvedTypeRef::AbiType(AbiBuiltin::StringView),
                        },
                    ],
                    returns: Some(ResolvedTypeRef::AbiType(AbiBuiltin::StringView)),
                },
                ResolvedFunction {
                    name: "take_struct".to_owned(),
                    function_id: 1,
                    params: vec![ResolvedParam {
                        name: "p".to_owned(),
                        ty: ResolvedTypeRef::UserDefined("Pair".to_owned()),
                    }],
                    returns: Some(ResolvedTypeRef::Primitive(PrimitiveType::U32)),
                },
                ResolvedFunction {
                    name: "take_buffer".to_owned(),
                    function_id: 2,
                    params: vec![ResolvedParam {
                        name: "b".to_owned(),
                        ty: ResolvedTypeRef::AbiType(AbiBuiltin::Buffer),
                    }],
                    returns: None,
                },
                ResolvedFunction {
                    name: "get_struct".to_owned(),
                    function_id: 3,
                    params: vec![],
                    returns: Some(ResolvedTypeRef::UserDefined("Pair".to_owned())),
                },
            ],
        }],
        bundle: None,
    }
}

#[test]
fn generate_js_quickjs_enum_non_bitflag() {
    let e: EnumDef = EnumDef {
        name: "PixelFormat".to_owned(),
        repr: ReprType::U32,
        bitflag: false,
        variants: vec![
            EnumVariant {
                name: "Unknown".to_owned(),
                value: "0".to_owned(),
            },
            EnumVariant {
                name: "Rgba8".to_owned(),
                value: "1".to_owned(),
            },
        ],
    };
    let mut out: String = String::new();
    generate_js_quickjs_enum(&mut out, &e);
    assert!(
        out.contains("Object.freeze({"),
        "missing Object.freeze: {out}"
    );
    assert!(out.contains("Unknown: 0"), "missing Unknown: {out}");
    assert!(
        !out.contains("@bitflag"),
        "non-bitflag should not have @bitflag: {out}"
    );
}

#[test]
fn generate_js_quickjs_enum_bitflag() {
    let e: EnumDef = EnumDef {
        name: "ImageFlags".to_owned(),
        repr: ReprType::U32,
        bitflag: true,
        variants: vec![
            EnumVariant {
                name: "None".to_owned(),
                value: "0".to_owned(),
            },
            EnumVariant {
                name: "Compressed".to_owned(),
                value: "1".to_owned(),
            },
        ],
    };
    let mut out: String = String::new();
    generate_js_quickjs_enum(&mut out, &e);
    assert!(out.contains("@bitflag"), "missing @bitflag: {out}");
    assert!(
        out.contains("Object.freeze({"),
        "missing Object.freeze: {out}"
    );
}

#[test]
fn host_contract_name_to_ts_interface_conversion() {
    assert_eq!(
        host_contract_name_to_ts_interface("host.logger"),
        "HostLogger"
    );
    assert_eq!(
        host_contract_name_to_ts_interface("host.fs.reader"),
        "HostFsReader"
    );
    assert_eq!(
        host_contract_name_to_ts_interface("host.HostLogger"),
        "HostLogger"
    );
    assert_eq!(host_contract_name_to_ts_interface("logger"), "HostLogger");
}

#[test]
fn ts_host_param_type_mappings() {
    assert_eq!(
        ts_host_param_type(&ResolvedTypeRef::Primitive(PrimitiveType::U32)),
        "number"
    );
    assert_eq!(
        ts_host_param_type(&ResolvedTypeRef::Primitive(PrimitiveType::U64)),
        "{ lo: number; hi: number }"
    );
    assert_eq!(
        ts_host_param_type(&ResolvedTypeRef::AbiType(AbiBuiltin::StringView)),
        "string"
    );
    assert_eq!(
        ts_host_param_type(&ResolvedTypeRef::AbiType(AbiBuiltin::Buffer)),
        "Uint8Array"
    );
    assert_eq!(
        ts_host_param_type(&ResolvedTypeRef::UserDefined("MyStruct".to_owned())),
        "MyStruct"
    );
}

#[test]
fn ts_host_return_type_mappings() {
    assert_eq!(
        ts_host_return_type(&ResolvedTypeRef::Primitive(PrimitiveType::U32)),
        "number"
    );
    assert_eq!(
        ts_host_return_type(&ResolvedTypeRef::AbiType(AbiBuiltin::StringView)),
        "string"
    );
    assert_eq!(
        ts_host_return_type(&ResolvedTypeRef::AbiType(AbiBuiltin::Buffer)),
        "Uint8Array"
    );
    assert_eq!(
        ts_host_return_type(&ResolvedTypeRef::UserDefined("MyStruct".to_owned())),
        "MyStruct"
    );
}

#[test]
fn generate_ts_host_contract_interface_produces_interface() {
    let contract: ResolvedHostContract = ResolvedHostContract {
        name: "host.logger".to_owned(),
        contract_id: 0x1234_5678_9ABC_DEF0_u64,
        version: Version {
            major: 1,
            minor: 0,
            patch: 0,
        },
        singleton: false,
        functions: vec![
            ResolvedFunction {
                name: "log".to_owned(),
                function_id: 0,
                params: vec![ResolvedParam {
                    name: "message".to_owned(),
                    ty: ResolvedTypeRef::AbiType(AbiBuiltin::StringView),
                }],
                returns: None,
            },
            ResolvedFunction {
                name: "logf".to_owned(),
                function_id: 1,
                params: vec![
                    ResolvedParam {
                        name: "level".to_owned(),
                        ty: ResolvedTypeRef::Primitive(PrimitiveType::U32),
                    },
                    ResolvedParam {
                        name: "format".to_owned(),
                        ty: ResolvedTypeRef::AbiType(AbiBuiltin::StringView),
                    },
                ],
                returns: None,
            },
        ],
    };
    let mut out: String = String::new();
    generate_ts_host_contract_interface(&mut out, &contract);
    assert!(
        out.contains("export interface HostLogger"),
        "missing interface: {out}"
    );
    assert!(
        out.contains("Log(message: string): void"),
        "missing Log method: {out}"
    );
    assert!(
        out.contains("Logf(level: number, format: string): void"),
        "missing Logf method: {out}"
    );
}

#[test]
fn generate_host_contracts_ts_produces_file() {
    let ir: ValidatedIr = ValidatedIr {
        types: vec![],
        enums: vec![],
        contracts: vec![],
        host_contracts: vec![ResolvedHostContract {
            name: "host.logger".to_owned(),
            contract_id: 0x1234_5678_9ABC_DEF0_u64,
            version: Version {
                major: 1,
                minor: 0,
                patch: 0,
            },
            singleton: false,
            functions: vec![ResolvedFunction {
                name: "log".to_owned(),
                function_id: 0,
                params: vec![ResolvedParam {
                    name: "message".to_owned(),
                    ty: ResolvedTypeRef::AbiType(AbiBuiltin::StringView),
                }],
                returns: None,
            }],
        }],
        bundle: None,
    };
    let out: String = generate_host_contracts_ts(&ir);
    assert!(out.contains("AUTO-GENERATED"), "missing header: {out}");
    assert!(
        out.contains("export interface HostLogger"),
        "missing interface: {out}"
    );
    assert!(
        out.contains("HOSTLOGGER_CONTRACT_ID"),
        "missing constant: {out}"
    );
    assert!(
        out.contains("0x123456789ABCDEF0n"),
        "missing contract ID value: {out}"
    );
}

#[test]
fn generate_host_with_host_contracts_produces_contracts_file() {
    let generator: JsQuickjsGenerator = JsQuickjsGenerator;
    let ir: ValidatedIr = ValidatedIr {
        types: vec![],
        enums: vec![],
        contracts: vec![],
        host_contracts: vec![ResolvedHostContract {
            name: "host.logger".to_owned(),
            contract_id: 0x1234_5678_9ABC_DEF0_u64,
            version: Version {
                major: 1,
                minor: 0,
                patch: 0,
            },
            singleton: false,
            functions: vec![ResolvedFunction {
                name: "log".to_owned(),
                function_id: 0,
                params: vec![],
                returns: None,
            }],
        }],
        bundle: None,
    };
    let mut files: GeneratedFiles = GeneratedFiles::default();
    generator
        .generate_host(&ir, &mut files)
        .expect("generate_host");
    let names: Vec<String> = files
        .files
        .iter()
        .map(|f: &GeneratedFile| f.path.clone())
        .collect();
    assert!(
        names.contains(&"host/contracts.ts".to_owned()),
        "missing host/contracts.ts: {names:?}"
    );
}

#[test]
fn generate_host_without_host_contracts_no_contracts_file() {
    let generator: JsQuickjsGenerator = JsQuickjsGenerator;
    let ir: ValidatedIr = ValidatedIr {
        types: vec![],
        enums: vec![],
        contracts: vec![],
        host_contracts: vec![],
        bundle: None,
    };
    let mut files: GeneratedFiles = GeneratedFiles::default();
    generator
        .generate_host(&ir, &mut files)
        .expect("generate_host");
    let names: Vec<String> = files
        .files
        .iter()
        .map(|f: &GeneratedFile| f.path.clone())
        .collect();
    assert!(
        !names.contains(&"host/contracts.ts".to_owned()),
        "unexpected host/contracts.ts: {names:?}"
    );
}

#[test]
fn host_contract_name_to_ts_caller_conversion() {
    assert_eq!(
        host_contract_name_to_ts_caller("host.logger"),
        "HostLoggerContract"
    );
    assert_eq!(
        host_contract_name_to_ts_caller("host.fs.reader"),
        "HostFsReaderContract"
    );
    assert_eq!(
        host_contract_name_to_ts_caller("host.HostLogger"),
        "HostLoggerContract"
    );
    assert_eq!(
        host_contract_name_to_ts_caller("logger"),
        "HostLoggerContract"
    );
}

#[test]
fn ts_guest_caller_param_type_mappings() {
    assert_eq!(
        ts_guest_caller_param_type(&ResolvedTypeRef::Primitive(PrimitiveType::U32)),
        "number"
    );
    assert_eq!(
        ts_guest_caller_param_type(&ResolvedTypeRef::Primitive(PrimitiveType::U64)),
        "{ lo: number; hi: number }"
    );
    assert_eq!(
        ts_guest_caller_param_type(&ResolvedTypeRef::AbiType(AbiBuiltin::StringView)),
        "string"
    );
    assert_eq!(
        ts_guest_caller_param_type(&ResolvedTypeRef::AbiType(AbiBuiltin::Buffer)),
        "Uint8Array"
    );
    assert_eq!(
        ts_guest_caller_param_type(&ResolvedTypeRef::UserDefined("MyStruct".to_owned())),
        "MyStruct"
    );
}

#[test]
fn generate_ts_guest_host_contract_caller_produces_class() {
    let contract: ResolvedHostContract = ResolvedHostContract {
        name: "host.logger".to_owned(),
        contract_id: 0x1234_5678_9ABC_DEF0_u64,
        version: Version {
            major: 1,
            minor: 0,
            patch: 0,
        },
        singleton: false,
        functions: vec![
            ResolvedFunction {
                name: "log".to_owned(),
                function_id: 0,
                params: vec![ResolvedParam {
                    name: "message".to_owned(),
                    ty: ResolvedTypeRef::AbiType(AbiBuiltin::StringView),
                }],
                returns: None,
            },
            ResolvedFunction {
                name: "logf".to_owned(),
                function_id: 1,
                params: vec![
                    ResolvedParam {
                        name: "level".to_owned(),
                        ty: ResolvedTypeRef::Primitive(PrimitiveType::U32),
                    },
                    ResolvedParam {
                        name: "format".to_owned(),
                        ty: ResolvedTypeRef::AbiType(AbiBuiltin::StringView),
                    },
                ],
                returns: None,
            },
        ],
    };
    let mut out: String = String::new();
    generate_ts_guest_host_contract_caller(&mut out, &contract, &wrapper_ir(vec![], vec![]))
        .expect("generate host-contract caller");
    assert!(
        out.contains("export class HostLoggerContract"),
        "missing class: {out}"
    );
    assert!(
        out.contains(
            "private constructor(bridge: any, hostPtr: { lo: number; hi: number }, minVersion: number)"
        ),
        "missing private constructor: {out}"
    );
    assert!(
        out.contains(
            "static fromHost(bridge: any, hostPtr: { lo: number; hi: number }, minVersion: number = 0)"
        ),
        "missing fromHost: {out}"
    );
    assert!(out.contains("isValid(): boolean"), "missing isValid: {out}");
    // The bridge is threaded in, not read from a global (Rule 12).
    assert!(
        !out.contains("(globalThis as any).polyplug"),
        "host-contract caller must not read a global bridge: {out}"
    );
    assert!(
        out.contains("const polyplug = this._bridge;"),
        "host-contract caller methods must use the threaded bridge: {out}"
    );
    assert!(
        out.contains("log(message: string): void"),
        "missing log method: {out}"
    );
    assert!(
        out.contains("logf(level: number, format: string): void"),
        "missing logf method: {out}"
    );
    // New shape: uses callHostContract, arenaAlloc, not the old dispatch machinery.
    assert!(
        out.contains("polyplug.callHostContract("),
        "must use callHostContract: {out}"
    );
    assert!(
        !out.contains("readHostContractHeader"),
        "must not use readHostContractHeader: {out}"
    );
    assert!(
        !out.contains("callDispatchFn"),
        "must not use callDispatchFn: {out}"
    );
}

#[test]
fn generate_ts_guest_host_contract_caller_with_return() {
    let contract: ResolvedHostContract = ResolvedHostContract {
        name: "host.fs.reader".to_owned(),
        contract_id: 0xDEAD_BEEF_u64,
        version: Version {
            major: 1,
            minor: 0,
            patch: 0,
        },
        singleton: false,
        functions: vec![ResolvedFunction {
            name: "read".to_owned(),
            function_id: 0,
            params: vec![ResolvedParam {
                name: "path".to_owned(),
                ty: ResolvedTypeRef::AbiType(AbiBuiltin::StringView),
            }],
            returns: Some(ResolvedTypeRef::AbiType(AbiBuiltin::Buffer)),
        }],
    };
    let mut out: String = String::new();
    generate_ts_guest_host_contract_caller(&mut out, &contract, &wrapper_ir(vec![], vec![]))
        .expect("generate host-contract caller");
    assert!(
        out.contains("export class HostFsReaderContract"),
        "missing class: {out}"
    );
    assert!(
        out.contains(
            "read(path: string): { ptr_lo: number; ptr_hi: number; len: number; cap: number }"
        ),
        "missing read method with raw Buffer return: {out}"
    );
}

#[test]
fn generate_guest_host_contracts_ts_produces_file() {
    let ir: ValidatedIr = ValidatedIr {
        types: vec![],
        enums: vec![],
        contracts: vec![],
        host_contracts: vec![ResolvedHostContract {
            name: "host.logger".to_owned(),
            contract_id: 0x1234_5678_9ABC_DEF0_u64,
            version: Version {
                major: 1,
                minor: 0,
                patch: 0,
            },
            singleton: false,
            functions: vec![ResolvedFunction {
                name: "log".to_owned(),
                function_id: 0,
                params: vec![ResolvedParam {
                    name: "message".to_owned(),
                    ty: ResolvedTypeRef::AbiType(AbiBuiltin::StringView),
                }],
                returns: None,
            }],
        }],
        bundle: None,
    };
    let out: String =
        generate_guest_host_contracts_ts(&ir).expect("generate guest host contracts");
    assert!(out.contains("AUTO-GENERATED"), "missing header: {out}");
    assert!(
        out.contains("export class HostLoggerContract"),
        "missing class: {out}"
    );
    assert!(
        out.contains("HOSTLOGGERCONTRACT_ID"),
        "missing constant: {out}"
    );
    assert!(
        out.contains("0x123456789ABCDEF0n"),
        "missing contract ID value: {out}"
    );
}

#[test]
fn generate_guest_with_host_contracts_produces_file() {
    let generator: JsQuickjsGenerator = JsQuickjsGenerator;
    let ir: ValidatedIr = ValidatedIr {
        types: vec![],
        enums: vec![],
        contracts: vec![],
        host_contracts: vec![ResolvedHostContract {
            name: "host.logger".to_owned(),
            contract_id: 0x1234_5678_9ABC_DEF0_u64,
            version: Version {
                major: 1,
                minor: 0,
                patch: 0,
            },
            singleton: false,
            functions: vec![ResolvedFunction {
                name: "log".to_owned(),
                function_id: 0,
                params: vec![],
                returns: None,
            }],
        }],
        bundle: None,
    };
    let mut files: GeneratedFiles = GeneratedFiles::default();
    generator
        .generate_guest(&ir, &mut files)
        .expect("generate_guest");
    let names: Vec<String> = files
        .files
        .iter()
        .map(|f: &GeneratedFile| f.path.clone())
        .collect();
    assert!(
        names.contains(&"guest/host_contracts.ts".to_owned()),
        "missing guest/host_contracts.ts: {names:?}"
    );
}

#[test]
fn enum_is_exported_for_cross_module_use() {
    // Regression: `host_contracts.ts` references enum types (e.g. `LogLevel`)
    // declared in `types.ts`. The enum const and its type must be `export`ed
    // or the cross-module reference fails `deno check` with TS2304.
    let e: EnumDef = EnumDef {
        name: "LogLevel".to_owned(),
        repr: ReprType::U32,
        bitflag: false,
        variants: vec![EnumVariant {
            name: "Debug".to_owned(),
            value: "0".to_owned(),
        }],
    };
    let mut out: String = String::new();
    generate_js_quickjs_enum(&mut out, &e);
    assert!(
        out.contains("export const LogLevel = Object.freeze({"),
        "enum const must be exported: {out}"
    );
    assert!(
        out.contains("export type LogLevel = typeof LogLevel"),
        "enum type must be exported: {out}"
    );
}

#[test]
fn guest_host_contracts_imports_enum_param_types() {
    // Regression: a host-contract method taking an enum parameter must import
    // that enum from `./types`, otherwise the name is undeclared (TS2304).
    let ir: ValidatedIr = ValidatedIr {
        types: vec![],
        enums: vec![],
        contracts: vec![],
        host_contracts: vec![ResolvedHostContract {
            name: "host.logger".to_owned(),
            contract_id: 0x1234_5678_9ABC_DEF0_u64,
            version: Version {
                major: 1,
                minor: 0,
                patch: 0,
            },
            singleton: false,
            functions: vec![ResolvedFunction {
                name: "log_with_level".to_owned(),
                function_id: 0,
                params: vec![ResolvedParam {
                    name: "level".to_owned(),
                    ty: ResolvedTypeRef::UserDefined("LogLevel".to_owned()),
                }],
                returns: None,
            }],
        }],
        bundle: None,
    };
    let out: String =
        generate_guest_host_contracts_ts(&ir).expect("generate guest host contracts");
    assert!(
        out.contains("import { LogLevel } from './types';"),
        "host_contracts.ts must import enum param type from ./types: {out}"
    );
}

#[test]
fn guest_host_contracts_no_type_import_when_no_user_types() {
    // A host contract using only ABI builtins must NOT emit a spurious import.
    let ir: ValidatedIr = ValidatedIr {
        types: vec![],
        enums: vec![],
        contracts: vec![],
        host_contracts: vec![ResolvedHostContract {
            name: "host.logger".to_owned(),
            contract_id: 0x1234_5678_9ABC_DEF0_u64,
            version: Version {
                major: 1,
                minor: 0,
                patch: 0,
            },
            singleton: false,
            functions: vec![ResolvedFunction {
                name: "log".to_owned(),
                function_id: 0,
                params: vec![ResolvedParam {
                    name: "message".to_owned(),
                    ty: ResolvedTypeRef::AbiType(AbiBuiltin::StringView),
                }],
                returns: None,
            }],
        }],
        bundle: None,
    };
    let out: String =
        generate_guest_host_contracts_ts(&ir).expect("generate guest host contracts");
    assert!(
        !out.contains("from './types'"),
        "no type import expected for ABI-only host contract: {out}"
    );
}

#[test]
fn generate_guest_without_host_contracts_no_file() {
    let generator: JsQuickjsGenerator = JsQuickjsGenerator;
    let ir: ValidatedIr = ValidatedIr {
        types: vec![],
        enums: vec![],
        contracts: vec![],
        host_contracts: vec![],
        bundle: None,
    };
    let mut files: GeneratedFiles = GeneratedFiles::default();
    generator
        .generate_guest(&ir, &mut files)
        .expect("generate_guest");
    let names: Vec<String> = files
        .files
        .iter()
        .map(|f: &GeneratedFile| f.path.clone())
        .collect();
    assert!(
        !names.contains(&"guest/host_contracts.ts".to_owned()),
        "unexpected guest/host_contracts.ts: {names:?}"
    );
}

#[test]
fn js_quickjs_peer_caller_emitted_for_declared_dependency() {
    // Build an IR where the bundle declares a dependency on a contract that
    // IS present in ir.contracts — the generator must emit peer_callers.ts.
    let validator_id: u64 = guest_contract_id("pipeline.Validator", 1);
    let ir: ValidatedIr = ValidatedIr {
        types: vec![],
        enums: vec![],
        contracts: vec![ResolvedContract {
            name: "pipeline.Validator".to_owned(),
            contract_id: validator_id,
            version: Version {
                major: 1,
                minor: 0,
                patch: 0,
            },
            functions: vec![],
        }],
        host_contracts: vec![],
        bundle: Some(ResolvedBundle {
            name: "transformer".to_owned(),
            version: Version {
                major: 1,
                minor: 0,
                patch: 0,
            },
            loader: "js-quickjs".to_owned(),
            runtime: "js-quickjs".to_owned(),
            file: ResolvedBundleFile::Single("libtransformer.so".to_owned()),
            plugins: vec![],
            bundle_id: 0,
            dependencies: vec![ResolvedDependency::ByContract {
                contract: "pipeline.Validator".to_owned(),
                contract_id: validator_id,
                min_version: 1 << 16,
            }],
            needs_reinit_on_dep_reload: false,
        }),
    };
    let generator: JsQuickjsGenerator = JsQuickjsGenerator;
    let mut files: GeneratedFiles = GeneratedFiles::default();
    generator
        .generate_guest(&ir, &mut files)
        .expect("generate_guest");
    let names: Vec<String> = files
        .files
        .iter()
        .map(|f: &GeneratedFile| f.path.clone())
        .collect();
    assert!(
        names.contains(&"guest/peer_callers.ts".to_owned()),
        "expected guest/peer_callers.ts in {names:?}"
    );
    // The generated file must mention callGuestMethod.
    let peer_file: &GeneratedFile = files
        .files
        .iter()
        .find(|f: &&GeneratedFile| f.path == "guest/peer_callers.ts")
        .expect("peer_callers.ts");
    assert!(
        peer_file.content.contains("callGuestMethod"),
        "peer_callers.ts must call callGuestMethod"
    );
    assert!(
        peer_file.content.contains("ValidatorPeer"),
        "peer_callers.ts must contain ValidatorPeer class"
    );
    // guest/index.ts must re-export ValidatorPeer.
    let index_file: &GeneratedFile = files
        .files
        .iter()
        .find(|f: &&GeneratedFile| f.path == "guest/index.ts")
        .expect("guest/index.ts");
    assert!(
        index_file.content.contains("ValidatorPeer"),
        "guest/index.ts must re-export ValidatorPeer"
    );
}

#[test]
fn guest_host_contract_stringview_return_uses_new_dispatch() {
    // A StringView-returning host-contract method must use _callerAlloc(16) (host
    // alloc, freed by the method's finally) for the out buffer, emit
    // polyplug.callHostContract, and read back via readU32(outPtr+8).
    let contract: ResolvedHostContract = ResolvedHostContract {
        name: "host.svc".to_owned(),
        contract_id: 0xABCD_1234_u64,
        version: Version {
            major: 1,
            minor: 0,
            patch: 0,
        },
        singleton: false,
        functions: vec![ResolvedFunction {
            name: "describe".to_owned(),
            function_id: 1,
            params: vec![ResolvedParam {
                name: "key".to_owned(),
                ty: ResolvedTypeRef::AbiType(AbiBuiltin::StringView),
            }],
            returns: Some(ResolvedTypeRef::AbiType(AbiBuiltin::StringView)),
        }],
    };
    let mut out: String = String::new();
    generate_ts_guest_host_contract_caller(&mut out, &contract, &wrapper_ir(vec![], vec![]))
        .expect("generate host-contract caller");
    assert!(
        out.contains("const _outBuf = _callerAlloc(16);"),
        "out buffer must be _callerAlloc(16) for StringView: {out}"
    );
    assert!(
        out.contains("polyplug.callHostContract("),
        "must use callHostContract: {out}"
    );
    assert!(
        out.contains("polyplug.readU32(outPtr + 8)"),
        "must read len from outPtr+8: {out}"
    );
    // Caller buffers are host-allocated and explicitly freed (no global arena).
    assert!(
        out.contains("for (const _f of _frees) { polyplug.free("),
        "caller must free its host-allocated buffers: {out}"
    );
}

#[test]
fn guest_host_contract_buffer_out_uses_arena_alloc_24() {
    // A Buffer-returning host-contract method must allocate 24 bytes for the out slot.
    let contract: ResolvedHostContract = ResolvedHostContract {
        name: "host.store".to_owned(),
        contract_id: 0x1111_2222_u64,
        version: Version {
            major: 1,
            minor: 0,
            patch: 0,
        },
        singleton: false,
        functions: vec![ResolvedFunction {
            name: "snapshot".to_owned(),
            function_id: 2,
            params: vec![],
            returns: Some(ResolvedTypeRef::AbiType(AbiBuiltin::Buffer)),
        }],
    };
    let mut out: String = String::new();
    generate_ts_guest_host_contract_caller(&mut out, &contract, &wrapper_ir(vec![], vec![]))
        .expect("generate host-contract caller");
    assert!(
        out.contains("const _outBuf = _callerAlloc(24);"),
        "out buffer must be _callerAlloc(24) for Buffer: {out}"
    );
    assert!(
        out.contains("polyplug.callHostContract("),
        "must use callHostContract: {out}"
    );
}

#[test]
fn js_quickjs_no_peer_callers_without_dependencies() {
    // A bundle with no [[dependency]] entries must NOT emit peer_callers.ts.
    let ir: ValidatedIr = ValidatedIr {
        types: vec![],
        enums: vec![],
        contracts: vec![ResolvedContract {
            name: "pipeline.Validator".to_owned(),
            contract_id: guest_contract_id("pipeline.Validator", 1),
            version: Version {
                major: 1,
                minor: 0,
                patch: 0,
            },
            functions: vec![],
        }],
        host_contracts: vec![],
        bundle: None,
    };
    let generator: JsQuickjsGenerator = JsQuickjsGenerator;
    let mut files: GeneratedFiles = GeneratedFiles::default();
    generator
        .generate_guest(&ir, &mut files)
        .expect("generate_guest");
    let names: Vec<String> = files
        .files
        .iter()
        .map(|f: &GeneratedFile| f.path.clone())
        .collect();
    assert!(
        !names.contains(&"guest/peer_callers.ts".to_owned()),
        "unexpected guest/peer_callers.ts: {names:?}"
    );
}

#[test]
fn quickjs_guest_wrapper_scalar_pair_is_not_stringview_hardcoded() {
    let contract: ResolvedContract = wrapper_contract(vec![ResolvedFunction {
        name: "add_primitive".to_owned(),
        function_id: 0,
        params: vec![
            ResolvedParam {
                name: "a".to_owned(),
                ty: ResolvedTypeRef::Primitive(PrimitiveType::U32),
            },
            ResolvedParam {
                name: "b".to_owned(),
                ty: ResolvedTypeRef::Primitive(PrimitiveType::U32),
            },
        ],
        returns: Some(ResolvedTypeRef::Primitive(PrimitiveType::U32)),
    }]);
    let ir: ValidatedIr = wrapper_ir(vec![], vec![]);
    let out: String = render_wrapper(&contract, &ir);
    assert!(
        out.contains("var arg_a = polyplug.readU32(args_ptr);"),
        "first u32 param must be read at offset 0: {out}"
    );
    assert!(
        out.contains("var arg_b = polyplug.readU32(args_ptr + 4);"),
        "second u32 param must be read at offset 4: {out}"
    );
    assert!(
        out.contains("polyplug.writeU32(out_ptr, result);"),
        "u32 return must be written with writeU32: {out}"
    );
    assert!(
        !out.contains("input_ptr_lo") && !out.contains("result.ptr_lo"),
        "scalar signature must not use the StringView hardcode: {out}"
    );
}

#[test]
fn quickjs_guest_wrapper_mixed_pack_uses_c_layout_alignment() {
    // (u32, StringView): the StringView sits at offset 8 in a repr(C)
    // pack (4 bytes of padding after the u32), NOT at offset 4.
    let contract: ResolvedContract = wrapper_contract(vec![ResolvedFunction {
        name: "log_with_count".to_owned(),
        function_id: 0,
        params: vec![
            ResolvedParam {
                name: "count".to_owned(),
                ty: ResolvedTypeRef::Primitive(PrimitiveType::U32),
            },
            ResolvedParam {
                name: "message".to_owned(),
                ty: ResolvedTypeRef::AbiType(AbiBuiltin::StringView),
            },
        ],
        returns: None,
    }]);
    let ir: ValidatedIr = wrapper_ir(vec![], vec![]);
    let out: String = render_wrapper(&contract, &ir);
    assert!(
        out.contains("var arg_message = { ptr_lo: polyplug.readU32(args_ptr + 8), ptr_hi: polyplug.readU32(args_ptr + 12), len: polyplug.readU32(args_ptr + 16) };"),
        "StringView after u32 must be read at C-layout offset 8: {out}"
    );
}

#[test]
fn quickjs_guest_wrapper_stringview_return_arena_allocates() {
    let contract: ResolvedContract = wrapper_contract(vec![ResolvedFunction {
        name: "decode".to_owned(),
        function_id: 0,
        params: vec![ResolvedParam {
            name: "input".to_owned(),
            ty: ResolvedTypeRef::AbiType(AbiBuiltin::StringView),
        }],
        returns: Some(ResolvedTypeRef::AbiType(AbiBuiltin::StringView)),
    }]);
    let ir: ValidatedIr = wrapper_ir(vec![], vec![]);
    let out: String = render_wrapper(&contract, &ir);
    // The wrapper takes the threaded arena_ptr + bridge and reads `polyplug`
    // from the bridge param (no global — Rule 12).
    assert!(
        out.contains(
            "(impl: any, args_ptr: number, out_ptr: number, arena_ptr: number, bridge: any): number"
        ),
        "wrapper must take the threaded arena_ptr + bridge: {out}"
    );
    assert!(
        out.contains("const polyplug = bridge;"),
        "wrapper must use the threaded bridge, not a global: {out}"
    );
    assert!(
        out.contains("var arg_input = { ptr_lo: polyplug.readU32(args_ptr), ptr_hi: polyplug.readU32(args_ptr + 4), len: polyplug.readU32(args_ptr + 8) };"),
        "single StringView param read at offset 0: {out}"
    );
    // The author returns a plain string; the wrapper arena-allocates it via the
    // threaded arena_ptr and writes the StringView back through out_ptr.
    assert!(
        out.contains("const _retBytes = _ppEncodeUtf8(result);")
            && out.contains(
                "const _retBuf = polyplug.arenaAlloc(_retBytes.length > 0 ? _retBytes.length : 1, arena_ptr);"
            ),
        "StringView return must arena-allocate a plain string via the threaded arena: {out}"
    );
    assert!(
        out.contains("polyplug.writeU32(out_ptr, _retBuf[0]);")
            && out.contains("polyplug.writeU32(out_ptr + 8, _retBytes.length);"),
        "StringView return written back through out_ptr: {out}"
    );
    assert!(
        out.contains("polyplug.writeU32(out_ptr + 12, 0);"),
        "high half of the usize len must be zeroed: {out}"
    );
}

#[test]
fn quickjs_guest_wrapper_struct_param_reads_fields() {
    let types: Vec<ResolvedType> = vec![ResolvedType {
        name: "AddArgs".to_owned(),
        fields: vec![
            ResolvedField {
                name: "a".to_owned(),
                ty: ResolvedTypeRef::Primitive(PrimitiveType::U32),
            },
            ResolvedField {
                name: "b".to_owned(),
                ty: ResolvedTypeRef::Primitive(PrimitiveType::U32),
            },
        ],
    }];
    let contract: ResolvedContract = wrapper_contract(vec![ResolvedFunction {
        name: "add".to_owned(),
        function_id: 0,
        params: vec![ResolvedParam {
            name: "args".to_owned(),
            ty: ResolvedTypeRef::UserDefined("AddArgs".to_owned()),
        }],
        returns: Some(ResolvedTypeRef::Primitive(PrimitiveType::U32)),
    }]);
    let ir: ValidatedIr = wrapper_ir(types, vec![]);
    let out: String = render_wrapper(&contract, &ir);
    assert!(
        out.contains("var arg_args = { a: polyplug.readU32(args_ptr), b: polyplug.readU32(args_ptr + 4) };"),
        "struct param must be read field-by-field at C offsets: {out}"
    );
}

#[test]
fn quickjs_guest_wrapper_nested_struct_param_and_return_recurse() {
    // A struct field that is itself a struct (depth > 1) must marshal through
    // the QuickJS guest wrapper, not be rejected. Layout:
    //   Inner { a: u32, b: u32 }            -> a@0, b@4 ; size 8, align 4
    //   Boxed { tag: u64, inner: Inner }    -> tag@0, inner@8 (8-aligned past
    //                                          the u64) ; size 16, align 8
    // proving both depth-2 recursion AND that the nested struct sits at the
    // C-layout offset its alignment demands.
    let types: Vec<ResolvedType> = vec![
        ResolvedType {
            name: "Inner".to_owned(),
            fields: vec![
                ResolvedField {
                    name: "a".to_owned(),
                    ty: ResolvedTypeRef::Primitive(PrimitiveType::U32),
                },
                ResolvedField {
                    name: "b".to_owned(),
                    ty: ResolvedTypeRef::Primitive(PrimitiveType::U32),
                },
            ],
        },
        ResolvedType {
            name: "Boxed".to_owned(),
            fields: vec![
                ResolvedField {
                    name: "tag".to_owned(),
                    ty: ResolvedTypeRef::Primitive(PrimitiveType::U64),
                },
                ResolvedField {
                    name: "inner".to_owned(),
                    ty: ResolvedTypeRef::UserDefined("Inner".to_owned()),
                },
            ],
        },
    ];
    let contract: ResolvedContract = wrapper_contract(vec![ResolvedFunction {
        name: "roundtrip".to_owned(),
        function_id: 0,
        params: vec![ResolvedParam {
            name: "o".to_owned(),
            ty: ResolvedTypeRef::UserDefined("Boxed".to_owned()),
        }],
        returns: Some(ResolvedTypeRef::UserDefined("Boxed".to_owned())),
    }]);
    let ir: ValidatedIr = wrapper_ir(types, vec![]);
    let out: String = render_wrapper(&contract, &ir);

    // The depth guard is gone: no UnsupportedType / "nested struct" rejection.
    assert!(
        !out.contains("nested struct") && !out.contains("UnsupportedType"),
        "nested struct must not be rejected: {out}"
    );
    // READ (js_read_expr) of the nested param descends field-by-field, with the
    // inner struct read at the 8-aligned offset (8/12), not 4.
    assert!(
        out.contains("var arg_o = { tag: { lo: polyplug.readU32(args_ptr), hi: polyplug.readU32(args_ptr + 4) }, inner: { a: polyplug.readU32(args_ptr + 8), b: polyplug.readU32(args_ptr + 12) } };"),
        "nested struct param must read as a nested object literal at C offsets: {out}"
    );
    // WRITE (emit_js_write_value) of the nested return descends into the inner
    // struct's fields at the same 8-aligned offsets.
    assert!(
        out.contains("polyplug.writeU32(out_ptr + 8, result.inner.a);"),
        "nested return inner.a must write at offset 8: {out}"
    );
    assert!(
        out.contains("polyplug.writeU32(out_ptr + 12, result.inner.b);"),
        "nested return inner.b must write at offset 12: {out}"
    );
}

#[test]
fn quickjs_guest_wrapper_f64_uses_float_bridge() {
    let contract: ResolvedContract = wrapper_contract(vec![ResolvedFunction {
        name: "scale".to_owned(),
        function_id: 0,
        params: vec![ResolvedParam {
            name: "factor".to_owned(),
            ty: ResolvedTypeRef::Primitive(PrimitiveType::F64),
        }],
        returns: Some(ResolvedTypeRef::Primitive(PrimitiveType::F64)),
    }]);
    let ir: ValidatedIr = wrapper_ir(vec![], vec![]);
    let out: String = render_wrapper(&contract, &ir);
    assert!(
        out.contains("var arg_factor = polyplug.readF64(args_ptr);"),
        "f64 param must use readF64: {out}"
    );
    assert!(
        out.contains("polyplug.writeF64(out_ptr, result);"),
        "f64 return must use writeF64: {out}"
    );
}

#[test]
fn quickjs_guest_wrapper_enum_param_reads_repr_integer() {
    let enums: Vec<EnumDef> = vec![EnumDef {
        name: "LogLevel".to_owned(),
        repr: ReprType::U32,
        bitflag: false,
        variants: vec![EnumVariant {
            name: "Info".to_owned(),
            value: "1".to_owned(),
        }],
    }];
    let contract: ResolvedContract = wrapper_contract(vec![ResolvedFunction {
        name: "set_level".to_owned(),
        function_id: 0,
        params: vec![ResolvedParam {
            name: "level".to_owned(),
            ty: ResolvedTypeRef::UserDefined("LogLevel".to_owned()),
        }],
        returns: None,
    }]);
    let ir: ValidatedIr = wrapper_ir(vec![], enums);
    let out: String = render_wrapper(&contract, &ir);
    assert!(
        out.contains("var arg_level = polyplug.readU32(args_ptr);"),
        "u32-repr enum param must be read as the raw repr integer: {out}"
    );
}

#[test]
fn quickjs_guest_wrapper_void_void_emits_no_marshalling() {
    let contract: ResolvedContract = wrapper_contract(vec![ResolvedFunction {
        name: "reset".to_owned(),
        function_id: 0,
        params: vec![],
        returns: None,
    }]);
    let ir: ValidatedIr = wrapper_ir(vec![], vec![]);
    let out: String = render_wrapper(&contract, &ir);
    assert!(
        out.contains("impl.fn0();"),
        "void/void function must call the impl with no args: {out}"
    );
    assert!(
        !out.contains("readU32(args_ptr") && !out.contains("writeU32(out_ptr"),
        "void/void function must not touch args/out buffers: {out}"
    );
}

#[test]
fn quickjs_caller_pack_uses_c_layout_alignment() {
    // Guest→host caller side of the same convention: (LogLevel u32,
    // StringView) packs to 24 bytes with the view at offset 8.
    let enums: Vec<EnumDef> = vec![EnumDef {
        name: "LogLevel".to_owned(),
        repr: ReprType::U32,
        bitflag: false,
        variants: vec![EnumVariant {
            name: "Info".to_owned(),
            value: "1".to_owned(),
        }],
    }];
    let func: ResolvedFunction = ResolvedFunction {
        name: "log_with_level".to_owned(),
        function_id: 1,
        params: vec![
            ResolvedParam {
                name: "level".to_owned(),
                ty: ResolvedTypeRef::UserDefined("LogLevel".to_owned()),
            },
            ResolvedParam {
                name: "message".to_owned(),
                ty: ResolvedTypeRef::AbiType(AbiBuiltin::StringView),
            },
        ],
        returns: None,
    };
    let mut out: String = String::new();
    emit_ts_guest_host_contract_args_setup(&mut out, &func, &wrapper_ir(vec![], enums))
        .expect("args setup");
    assert!(
        out.contains("_callerAlloc(24)"),
        "pack must be 24 bytes (u32 + pad + 16-byte StringView): {out}"
    );
    assert!(
        out.contains("polyplug.writeU32(argsPtr + 8, _messageDataBuf[0]);"),
        "StringView after u32 must be written at C-layout offset 8: {out}"
    );
}

#[test]
fn quickjs_caller_single_enum_param_writes_repr_integer() {
    let func: ResolvedFunction = ResolvedFunction {
        name: "set_format".to_owned(),
        function_id: 0,
        params: vec![ResolvedParam {
            name: "fmt".to_owned(),
            ty: ResolvedTypeRef::UserDefined("PixelFormat".to_owned()),
        }],
        returns: None,
    };
    let mut out: String = String::new();
    emit_ts_guest_host_contract_args_setup(
        &mut out,
        &func,
        &wrapper_ir(vec![], pixel_format_enums()),
    )
    .expect("args setup");
    assert!(
        out.contains("polyplug.writeU32(argsPtr, Number(fmt));"),
        "u32-repr enum param must be written into the arena slot: {out}"
    );
    assert!(
        out.contains("const argsPtr = _argsBuf[0] + _argsBuf[1] * 4294967296;"),
        "the slot's ADDRESS must be passed as argsPtr: {out}"
    );
}

#[test]
fn quickjs_caller_enum_return_reads_repr_integer() {
    let returns: Option<ResolvedTypeRef> =
        Some(ResolvedTypeRef::UserDefined("PixelFormat".to_owned()));
    let mut out: String = String::new();
    emit_ts_guest_host_contract_readback(
        &mut out,
        returns.as_ref(),
        &wrapper_ir(vec![], pixel_format_enums()),
    )
    .expect("readback");
    assert!(
        out.contains("const result = polyplug.readU32(outPtr) as any;"),
        "u32-repr enum return must read back the repr integer: {out}"
    );
    assert!(
        !out.contains("{ lo:"),
        "enum return must NOT fall back to the {{lo, hi}} object shape: {out}"
    );
}

#[test]
fn quickjs_caller_u64_enum_splits_words() {
    let enums: Vec<EnumDef> = vec![EnumDef {
        name: "BigFlags".to_owned(),
        repr: ReprType::U64,
        bitflag: false,
        variants: vec![EnumVariant {
            name: "A".to_owned(),
            value: "1".to_owned(),
        }],
    }];
    let func: ResolvedFunction = ResolvedFunction {
        name: "set_flags".to_owned(),
        function_id: 0,
        params: vec![ResolvedParam {
            name: "flags".to_owned(),
            ty: ResolvedTypeRef::UserDefined("BigFlags".to_owned()),
        }],
        returns: None,
    };
    let ir: ValidatedIr = wrapper_ir(vec![], enums);
    let mut out: String = String::new();
    emit_ts_guest_host_contract_args_setup(&mut out, &func, &ir).expect("args setup");
    assert!(
        out.contains("polyplug.writeU32(argsPtr, Number(flags) >>> 0);")
            && out.contains(
                "polyplug.writeU32(argsPtr + 4, Math.floor(Number(flags) / 4294967296));"
            ),
        "u64-repr enum param must split into lo/hi words (writeU32 alone truncates): {out}"
    );

    let returns: Option<ResolvedTypeRef> =
        Some(ResolvedTypeRef::UserDefined("BigFlags".to_owned()));
    let mut ret: String = String::new();
    emit_ts_guest_host_contract_readback(&mut ret, returns.as_ref(), &ir).expect("readback");
    assert!(
        ret.contains(
            "(polyplug.readU32(outPtr) + polyplug.readU32(outPtr + 4) * 4294967296) as any"
        ),
        "u64-repr enum return must combine lo/hi words: {ret}"
    );
}

#[test]
fn quickjs_caller_struct_param_and_return_marshal_field_by_field() {
    // Struct-by-value param/return on the guest→host caller path must marshal
    // field-by-field (NOT Number(structObj) = NaN into a 4-byte slot).
    // Pair { a: u32, b: u32 } -> a@0, b@4 ; size 8, align 4.
    let types: Vec<ResolvedType> = vec![ResolvedType {
        name: "Pair".to_owned(),
        fields: vec![
            ResolvedField {
                name: "a".to_owned(),
                ty: ResolvedTypeRef::Primitive(PrimitiveType::U32),
            },
            ResolvedField {
                name: "b".to_owned(),
                ty: ResolvedTypeRef::Primitive(PrimitiveType::U32),
            },
        ],
    }];
    let ir: ValidatedIr = wrapper_ir(types, vec![]);
    let func: ResolvedFunction = ResolvedFunction {
        name: "compute".to_owned(),
        function_id: 0,
        params: vec![ResolvedParam {
            name: "args".to_owned(),
            ty: ResolvedTypeRef::UserDefined("Pair".to_owned()),
        }],
        returns: Some(ResolvedTypeRef::UserDefined("Pair".to_owned())),
    };

    // PARAM: allocate the struct's C size and pack each field — no NaN.
    let mut args: String = String::new();
    emit_ts_guest_host_contract_args_setup(&mut args, &func, &ir).expect("args setup");
    assert!(
        args.contains("_callerAlloc(8)"),
        "struct param slot must be the C-layout size (8), not a 4-byte slot: {args}"
    );
    assert!(
        args.contains("polyplug.writeU32(argsPtr, args.a);")
            && args.contains("polyplug.writeU32(argsPtr + 4, args.b);"),
        "struct param must be packed field-by-field at C offsets: {args}"
    );
    assert!(
        !args.contains("Number(args)"),
        "struct param must NOT degrade to Number(structObj) = NaN: {args}"
    );

    // RETURN out-setup: allocate the exact struct size (not an 8-byte pointer slot).
    let mut outs: String = String::new();
    emit_ts_guest_host_contract_out_setup(&mut outs, &func.returns, &ir).expect("out setup");
    assert!(
        outs.contains("_callerAlloc(8)"),
        "struct return out slot must be the C-layout size: {outs}"
    );

    // RETURN readback: read the struct field-by-field into an object literal.
    let mut rb: String = String::new();
    emit_ts_guest_host_contract_readback(&mut rb, func.returns.as_ref(), &ir)
        .expect("readback");
    assert!(
        rb.contains(
            "const result = { a: polyplug.readU32(outPtr), b: polyplug.readU32(outPtr + 4) };"
        ),
        "struct return must be read field-by-field, not as a {{lo,hi}} pointer: {rb}"
    );
}

#[test]
fn quickjs_caller_struct_with_stringview_field_arena_allocates() {
    // A struct param whose field is a StringView must arena-allocate the
    // string bytes (matching the Deno caller) — no per-language limitation.
    // Holder { name: StringView, code: u32 } -> name@0 (16,8), code@16 ; size 24.
    let types: Vec<ResolvedType> = vec![ResolvedType {
        name: "Holder".to_owned(),
        fields: vec![
            ResolvedField {
                name: "name".to_owned(),
                ty: ResolvedTypeRef::AbiType(AbiBuiltin::StringView),
            },
            ResolvedField {
                name: "code".to_owned(),
                ty: ResolvedTypeRef::Primitive(PrimitiveType::U32),
            },
        ],
    }];
    let ir: ValidatedIr = wrapper_ir(types, vec![]);
    let func: ResolvedFunction = ResolvedFunction {
        name: "store".to_owned(),
        function_id: 0,
        params: vec![ResolvedParam {
            name: "args".to_owned(),
            ty: ResolvedTypeRef::UserDefined("Holder".to_owned()),
        }],
        returns: None,
    };
    let mut out: String = String::new();
    emit_ts_guest_host_contract_args_setup(&mut out, &func, &ir).expect("args setup");
    assert!(
        out.contains("_callerAlloc(24)"),
        "Holder slot must be 24 bytes (16-byte StringView + u32, 8-aligned): {out}"
    );
    assert!(
        out.contains("const _sv0Bytes = _ppEncodeUtf8(args.name);"),
        "StringView struct field must encode from the field expression (TextEncoder-free): {out}"
    );
    assert!(
        out.contains("polyplug.writeU32(argsPtr + 16, args.code);"),
        "scalar field after the 16-byte StringView must write at offset 16: {out}"
    );
}

#[test]
fn deno_host_caller_marshals_all_shapes() {
    let ir: ValidatedIr = deno_shapes_ir();
    let out: String = generate_callers_ts(&ir).expect("generate Deno callers");

    // The old "shape not supported" stub must be gone for every shape.
    assert!(
        !out.contains("shape not supported"),
        "no caller shape may emit the unsupported stub: {out}"
    );

    // Ergonomic, import-free TS signatures.
    assert!(
        out.contains("mix(n: number, big: bigint, c: number, s: string): string {"),
        "mix signature must map each param to its ergonomic Deno type: {out}"
    );
    assert!(
        out.contains("take_struct(p: { a: number; b: bigint }): number {"),
        "struct param must be an inline object type: {out}"
    );
    assert!(
        out.contains("get_struct(): { a: number; b: bigint } {"),
        "struct return must be an inline object type: {out}"
    );
    assert!(
        out.contains("get_color(): number {"),
        "enum return must be `number`: {out}"
    );

    // `mix` args struct: u32@0, u64@8 (8-aligned), Color u32@16, StringView@24
    // → 40-byte buffer.
    assert!(
        out.contains("const argsBuf = new Uint8Array(40);"),
        "mix args must pack to 40 bytes under C layout: {out}"
    );
    assert!(
        out.contains("argsDv.setBigUint64(8, BigInt(big), true);"),
        "u64 param must be written at offset 8 as bigint: {out}"
    );
    // Enum param written UNSIGNED at its repr width (the #34 item-3 fix).
    assert!(
        out.contains("argsDv.setUint32(16, Number(c) >>> 0, true);"),
        "u32-repr enum param must be written UNSIGNED at offset 16: {out}"
    );
    // StringView param: host-allocated, length+ptr written, tracked for free.
    assert!(
        out.contains("rt.alloc(_sv0Alloc, 1)")
            && out.contains("_allocs.push([_sv0Ptr, _sv0Alloc]);"),
        "StringView param must be host-allocated and tracked for release: {out}"
    );
    assert!(
        out.contains(
            "argsDv.setBigUint64(24, BigInt(Deno.UnsafePointer.value(_sv0Ptr)), true);"
        ),
        "StringView param ptr must be written at C-layout offset 24: {out}"
    );
    // All argument payloads are freed after dispatch.
    assert!(
        out.contains("for (const [_p, _s] of _allocs) { rt.free(_p, _s, 1); }"),
        "argument payloads must be freed after dispatch: {out}"
    );
    // StringView return: decoded then freed.
    assert!(
        out.contains("_decoder.decode(") && out.contains("rt.free(_ptr, _l, 1);"),
        "returned StringView must be decoded and freed: {out}"
    );

    // Struct return read field-by-field, UNSIGNED/signed at exact widths.
    assert!(
        out.contains("const _r1 = outDv.getUint32(0, true);"),
        "struct return u32 field must read at offset 0: {out}"
    );
    assert!(
        out.contains("const _r2 = outDv.getBigInt64(8, true);"),
        "struct return i64 field must read as signed bigint at offset 8: {out}"
    );
    assert!(
        out.contains("const _r0 = { a: _r1, b: _r2 };"),
        "struct return must be assembled into an object literal: {out}"
    );

    // Enum return read UNSIGNED at repr width — never the {lo,hi} object.
    assert!(
        out.contains("const _r0 = outDv.getUint32(0, true);"),
        "u32-repr enum return must read the UNSIGNED repr integer: {out}"
    );
    assert!(
        !out.contains("getBigInt64") || !out.contains("Number(outDv.getBigInt64"),
        "enum returns must not sign-extend: {out}"
    );
}

#[test]
fn deno_host_caller_marshals_nested_struct() {
    // A struct field that is itself a struct (depth > 1) must marshal through
    // the Deno host caller, not be rejected. Same layout as the QuickJS guest
    // nested test:
    //   Inner { a: u32, b: u32 }          -> a@0, b@4 ; size 8, align 4
    //   Boxed { tag: u64, inner: Inner }  -> tag@0, inner@8 ; size 16, align 8
    let ir: ValidatedIr = ValidatedIr {
        types: vec![
            ResolvedType {
                name: "Inner".to_owned(),
                fields: vec![
                    ResolvedField {
                        name: "a".to_owned(),
                        ty: ResolvedTypeRef::Primitive(PrimitiveType::U32),
                    },
                    ResolvedField {
                        name: "b".to_owned(),
                        ty: ResolvedTypeRef::Primitive(PrimitiveType::U32),
                    },
                ],
            },
            ResolvedType {
                name: "Boxed".to_owned(),
                fields: vec![
                    ResolvedField {
                        name: "tag".to_owned(),
                        ty: ResolvedTypeRef::Primitive(PrimitiveType::U64),
                    },
                    ResolvedField {
                        name: "inner".to_owned(),
                        ty: ResolvedTypeRef::UserDefined("Inner".to_owned()),
                    },
                ],
            },
        ],
        enums: vec![],
        contracts: vec![ResolvedContract {
            name: "test.nested".to_owned(),
            contract_id: 0x0011_2233_4455_6677_u64,
            version: Version {
                major: 1,
                minor: 0,
                patch: 0,
            },
            functions: vec![
                ResolvedFunction {
                    name: "take_box".to_owned(),
                    function_id: 0,
                    params: vec![ResolvedParam {
                        name: "o".to_owned(),
                        ty: ResolvedTypeRef::UserDefined("Boxed".to_owned()),
                    }],
                    returns: Some(ResolvedTypeRef::Primitive(PrimitiveType::U32)),
                },
                ResolvedFunction {
                    name: "get_box".to_owned(),
                    function_id: 1,
                    params: vec![],
                    returns: Some(ResolvedTypeRef::UserDefined("Boxed".to_owned())),
                },
            ],
        }],
        host_contracts: vec![],
        bundle: None,
    };
    let out: String = generate_callers_ts(&ir).expect("generate Deno callers");

    // The depth guard is gone: nothing rejects the nested struct.
    assert!(
        !out.contains("shape not supported")
            && !out.contains("UnsupportedType")
            && !out.contains("nested struct"),
        "nested struct must not be rejected by the Deno caller: {out}"
    );
    // Nested inline TS types (deno_caller_ts_type recurses).
    assert!(
        out.contains("take_box(o: { tag: bigint; inner: { a: number; b: number } }): number {"),
        "nested struct param must be a nested inline object type: {out}"
    );
    assert!(
        out.contains("get_box(): { tag: bigint; inner: { a: number; b: number } } {"),
        "nested struct return must be a nested inline object type: {out}"
    );
    // WRITE (emit_deno_write_value) descends into the inner struct at the
    // 8-aligned C offsets (8/12), past the u64 tag at 0.
    assert!(
        out.contains("argsDv.setBigUint64(0, BigInt(o.tag), true);"),
        "u64 tag must be written at offset 0: {out}"
    );
    assert!(
        out.contains("argsDv.setUint32(8, Number(o.inner.a) >>> 0, true);"),
        "nested inner.a must be written at offset 8: {out}"
    );
    assert!(
        out.contains("argsDv.setUint32(12, Number(o.inner.b) >>> 0, true);"),
        "nested inner.b must be written at offset 12: {out}"
    );
    // READ (emit_deno_read_local) assembles the nested return object from the
    // inner fields read at offsets 8/12.
    assert!(
        out.contains("const _r2 = { a: _r3, b: _r4 };")
            && out.contains("const _r0 = { tag: _r1, inner: _r2 };"),
        "nested struct return must assemble a nested object literal: {out}"
    );
    assert!(
        out.contains("outDv.getUint32(8, true)") && out.contains("outDv.getUint32(12, true)"),
        "nested inner fields must be read at offsets 8/12: {out}"
    );
}

#[test]
fn deno_host_provider_marshals_all_shapes() {
    let ir: ValidatedIr = deno_host_provider_shapes_ir();
    let out: String =
        generate_js_host_interface_factories_ts(&ir).expect("generate Deno host provider");

    // Every shape generates — no type is rejected as unsupported.
    assert!(
        !out.contains("UnsupportedType") && !out.contains("unsupported"),
        "no provider shape may be unsupported: {out}"
    );

    // Multi-param method: u32@0, u64@8, Color(u32)@16, StringView@24 (ptr+len)
    // → 40-byte args buffer; all four reach the impl.
    assert!(
        out.contains("const _argsDv = new DataView(new Deno.UnsafePointerView(argsPtr!).getArrayBuffer(40));"),
        "mix args must read from a 40-byte C-layout buffer: {out}"
    );
    assert!(
        out.contains("_argsDv.getBigUint64(8, true)"),
        "u64 arg must be read at offset 8: {out}"
    );
    assert!(
        out.contains("_argsDv.getUint32(16, true)"),
        "u32-repr enum arg must be read UNSIGNED at offset 16: {out}"
    );
    assert!(
        out.contains("impl.Mix(_r0, _r1, _r2, _r3);"),
        "all four args must reach the impl: {out}"
    );

    // StringView RETURN: host-allocated via rt.alloc (the guest frees it later).
    assert!(
        out.contains("rt.alloc(") && out.contains("_outDv.setBigUint64(0,"),
        "StringView return must host-allocate its payload and write the slot: {out}"
    );

    // Struct param read into an object; struct return written field-by-field.
    assert!(
        out.contains("const _r0 = { a:") || out.contains("a: _r"),
        "struct param must be read into an object literal: {out}"
    );
    assert!(
        out.contains("impl.GetStruct()") && out.contains("_outDv.setUint32(0,"),
        "struct return must write its scalar field: {out}"
    );

    // Buffer param read into a Uint8Array copy.
    assert!(
        out.contains("new Uint8Array(0)") && out.contains("impl.TakeBuffer(_r0);"),
        "Buffer param must be read into a Uint8Array and passed to the impl: {out}"
    );

    // CRITICAL ownership: the provider BORROWS its args — it must never free a
    // caller-owned arg payload (that would be a use-after-free). The only host
    // allocation is for the StringView RETURN; there is no rt.free anywhere.
    assert!(
        !out.contains("rt.free"),
        "provider must NOT free caller-owned arg payloads: {out}"
    );
}
