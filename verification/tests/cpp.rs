use polyplugc::generators::cpp::{
    contract_name_to_class, contract_name_to_guest_contract_class, contract_name_to_lower_snake,
    contract_name_to_upper_snake, cpp_guest_caller_param_type_name, cpp_guest_caller_return_expr,
    cpp_guest_caller_return_type_name, cpp_host_param_type_name, cpp_host_return_type_name,
    generate_cpp_enum, generate_cpp_guest_host_contract_caller, generate_cpp_guest_host_contracts_file,
    generate_cpp_host_contract, generate_cpp_host_contract_trait, generate_cpp_host_contracts_file,
    generate_cpp_host_interface_factories_file, generate_cpp_host_interface_factory,
    host_contract_name_to_cpp_caller, host_contract_name_to_cpp_trait, CppGenerator,
};
use polyplugc::generators::{CodeGenerator, GeneratedFile, GeneratedFiles};
use polyplugc::ir::{
    AbiBuiltin, EnumDef, EnumVariant, PrimitiveType, ReprType, ResolvedBundle, ResolvedBundleFile,
    ResolvedContract, ResolvedDependency, ResolvedFunction, ResolvedHostContract, ResolvedParam,
    ResolvedPlugin, ResolvedTypeRef, ValidatedIr, Version,
};

#[test]
fn class_name_conversion() {
    assert_eq!(
        contract_name_to_class("image.decode"),
        "ImageDecodeContract"
    );
}

#[test]
fn plugin_class_name_conversion() {
    assert_eq!(
        contract_name_to_guest_contract_class("test.add"),
        "TestAddGuestContract"
    );
}

#[test]
fn lower_snake_conversion() {
    assert_eq!(contract_name_to_lower_snake("test.add"), "test_add");
}

#[test]
fn upper_snake_conversion() {
    assert_eq!(contract_name_to_upper_snake("test.add"), "TEST_ADD");
}

#[test]
fn generate_host_empty_ir() {
    let generator: CppGenerator = CppGenerator;
    let ir: ValidatedIr = ValidatedIr {
        types: vec![],
        enums: vec![],
        contracts: vec![],
        host_contracts: vec![],
        bundle: None,
    };
    let mut files: GeneratedFiles = GeneratedFiles::default();
    generator
        .generate_host(&ir, &mut files)
        .expect("generate_host");
    // Now produces 3 files: types.hpp, host_callers.hpp, manifest.toml
    assert!(!files.files.is_empty());
    // At least one file contains the AUTO-GENERATED header
    assert!(
        files
            .files
            .iter()
            .any(|f| f.content.contains("AUTO-GENERATED"))
    );
}

#[test]
fn generate_guest_empty_ir() {
    let generator: CppGenerator = CppGenerator;
    let ir: ValidatedIr = ValidatedIr {
        types: vec![],
        enums: vec![],
        contracts: vec![],
        host_contracts: vec![],
        bundle: None,
    };
    let mut files: GeneratedFiles = GeneratedFiles::default();
    generator
        .generate_guest(&ir, &mut files)
        .expect("generate_guest");
    // Produces 4 files (bundle=None, so no manifest): types.hpp, contracts.hpp, interfaces.hpp, init.hpp
    assert_eq!(files.files.len(), 4);
    let names: Vec<String> = files
        .files
        .iter()
        .map(|f| f.path.clone())
        .collect();
    assert!(names.contains(&"guest/types.hpp".to_owned()));
    assert!(names.contains(&"guest/contracts.hpp".to_owned()));
    assert!(names.contains(&"guest/interfaces.hpp".to_owned()));
    assert!(names.contains(&"guest/init.hpp".to_owned()));
}

#[test]
fn generate_cpp_enum_non_bitflag() {
    let e: EnumDef = EnumDef {
        name: "PixelFormat".to_owned(),
        repr: ReprType::U32,
        bitflag: false,
        variants: vec![
            EnumVariant {
                name: "Unknown".to_owned(),
                value: "0".to_owned(),
            },
            EnumVariant {
                name: "Rgba8".to_owned(),
                value: "1".to_owned(),
            },
        ],
    };
    let mut out: String = String::new();
    generate_cpp_enum(&mut out, &e);
    assert!(
        out.contains("enum class PixelFormat : uint32_t"),
        "missing enum class: {out}"
    );
    assert!(
        out.contains("Unknown = 0"),
        "missing Unknown variant: {out}"
    );
    assert!(
        !out.contains("operator|"),
        "non-bitflag should not have operator|: {out}"
    );
}

#[test]
fn generate_cpp_enum_bitflag() {
    let e: EnumDef = EnumDef {
        name: "ImageFlags".to_owned(),
        repr: ReprType::U32,
        bitflag: true,
        variants: vec![
            EnumVariant {
                name: "None".to_owned(),
                value: "0".to_owned(),
            },
            EnumVariant {
                name: "Compressed".to_owned(),
                value: "1".to_owned(),
            },
        ],
    };
    let mut out: String = String::new();
    generate_cpp_enum(&mut out, &e);
    assert!(
        out.contains("enum class ImageFlags : uint32_t"),
        "missing enum class: {out}"
    );
    assert!(out.contains("operator|"), "missing operator|: {out}");
    assert!(out.contains("operator&"), "missing operator&: {out}");
    assert!(out.contains("operator~"), "missing operator~: {out}");
    assert!(
        out.contains("static_cast<uint32_t>"),
        "missing static_cast: {out}"
    );
}

#[test]
fn generate_cpp_host_contract_has_factory_method() {

    let contract = ResolvedContract {
        name: "test.add".to_owned(),
        contract_id: 0x123456789ABCDEF0,
        version: Version {
            major: 1,
            minor: 0,
            patch: 0,
        },
        functions: vec![ResolvedFunction {
            name: "add".to_owned(),
            function_id: 0,
            params: vec![
                ResolvedParam {
                    name: "a".to_owned(),
                    ty: ResolvedTypeRef::Primitive(PrimitiveType::I32),
                },
                ResolvedParam {
                    name: "b".to_owned(),
                    ty: ResolvedTypeRef::Primitive(PrimitiveType::I32),
                },
            ],
            returns: Some(ResolvedTypeRef::Primitive(PrimitiveType::I32)),
        }],
    };

    let mut out: String = String::new();
    generate_cpp_host_contract(&mut out, &contract).unwrap();

    // Check for instance-based factory method. The handle is the typed
    // GuestContractHandle (a u32 index struct), never a raw u64.
    assert!(
        out.contains("static std::optional<TestAddContract> create(GuestContractHandle handle, const HostApi* host) noexcept"),
        "missing factory method: {out}"
    );

    // Validity must key off the resolved interface pointer, not instance_.data:
    // stateless contracts legitimately return a null instance handle.
    assert!(
        out.contains("return interface_ != nullptr;"),
        "validity check must key off interface_, not instance_.data: {out}"
    );

    // Function-id bounds check must read the native dispatch table's count
    // (there is no top-level function_count field on GuestContractInterface).
    assert!(
        out.contains("interface_->dispatch.native.function_count"),
        "bounds check must use dispatch.native.function_count: {out}"
    );

    // Dispatch must branch on the interface's dispatch type for ABI parity.
    assert!(
        out.contains("switch (interface_->dispatch_type)"),
        "dispatch must branch on dispatch_type: {out}"
    );

    // Check for instance member (not PluginGuard)
    assert!(
        out.contains("GuestContractInstance instance_"),
        "missing instance member: {out}"
    );

    // Check for interface and host members
    assert!(
        out.contains("const GuestContractInterface* interface_"),
        "missing interface member: {out}"
    );
    assert!(
        out.contains("const HostApi* host_"),
        "missing host member: {out}"
    );

    // Check lifecycle methods
    assert!(
        out.contains("bool is_valid() const noexcept"),
        "missing is_valid method: {out}"
    );
    assert!(
        out.contains("explicit operator bool() const noexcept"),
        "missing operator bool: {out}"
    );
    assert!(
        out.contains("void reset() noexcept"),
        "missing reset method: {out}"
    );

    // Check destructor calls destroy_instance
    assert!(
        out.contains("~TestAddContract() noexcept"),
        "missing destructor: {out}"
    );
    assert!(
        out.contains("interface_->destroy_instance(host_, instance_)"),
        "missing destroy_instance call in destructor: {out}"
    );

    // Check factory calls create_instance
    assert!(
        out.contains("iface->create_instance(host, nullptr)"),
        "missing create_instance call in factory: {out}"
    );

    // Check move constructor (not default, explicit transfer)
    assert!(
        out.contains("TestAddContract(TestAddContract&& other) noexcept"),
        "missing move constructor: {out}"
    );
    assert!(
        out.contains("other.instance_.data = nullptr"),
        "missing nulling of moved-from instance: {out}"
    );
    assert!(
        out.contains("TestAddContract(const TestAddContract&) = delete"),
        "missing deleted copy constructor: {out}"
    );

    // Check private constructor
    assert!(
        out.contains("explicit TestAddContract(const GuestContractInterface* iface, GuestContractInstance inst, const HostApi* host) noexcept"),
        "missing private constructor: {out}"
    );

    // Check dispatch uses instance_
    assert!(
        out.contains("fn_(instance_, args_ptr,"),
        "missing instance_ in dispatch call: {out}"
    );
}

#[test]
fn host_contract_name_to_cpp_trait_conversion() {
    assert_eq!(host_contract_name_to_cpp_trait("host.logger"), "HostLogger");
    assert_eq!(
        host_contract_name_to_cpp_trait("host.fs.reader"),
        "HostFsReader"
    );
    assert_eq!(
        host_contract_name_to_cpp_trait("host.HostLogger"),
        "HostLogger"
    );
    assert_eq!(host_contract_name_to_cpp_trait("logger"), "HostLogger");
}

#[test]
fn cpp_host_param_type_name_mappings() {
    assert_eq!(
        cpp_host_param_type_name(&ResolvedTypeRef::Primitive(PrimitiveType::U32)),
        "uint32_t"
    );
    assert_eq!(
        cpp_host_param_type_name(&ResolvedTypeRef::AbiType(AbiBuiltin::StringView)),
        "StringView"
    );
    assert_eq!(
        cpp_host_param_type_name(&ResolvedTypeRef::AbiType(AbiBuiltin::Buffer)),
        "Buffer"
    );
    assert_eq!(
        cpp_host_param_type_name(&ResolvedTypeRef::UserDefined("MyStruct".to_owned())),
        "MyStruct"
    );
}

#[test]
fn cpp_host_return_type_name_mappings() {
    assert_eq!(
        cpp_host_return_type_name(&ResolvedTypeRef::Primitive(PrimitiveType::U32)),
        "uint32_t"
    );
    assert_eq!(
        cpp_host_return_type_name(&ResolvedTypeRef::AbiType(AbiBuiltin::StringView)),
        "StringView"
    );
    assert_eq!(
        cpp_host_return_type_name(&ResolvedTypeRef::AbiType(AbiBuiltin::Buffer)),
        "Buffer"
    );
    assert_eq!(
        cpp_host_return_type_name(&ResolvedTypeRef::UserDefined("MyStruct".to_owned())),
        "MyStruct"
    );
}

#[test]
fn generate_cpp_host_contract_trait_produces_class() {
    let contract = ResolvedHostContract {
        name: "host.logger".to_owned(),
        contract_id: 0x1234_5678_9ABC_DEF0_u64,
        version: Version {
            major: 1,
            minor: 0,
            patch: 0,
        },
        singleton: false,
        functions: vec![
            ResolvedFunction {
                name: "log".to_owned(),
                function_id: 0,
                params: vec![ResolvedParam {
                    name: "message".to_owned(),
                    ty: ResolvedTypeRef::AbiType(AbiBuiltin::StringView),
                }],
                returns: None,
            },
            ResolvedFunction {
                name: "logf".to_owned(),
                function_id: 1,
                params: vec![
                    ResolvedParam {
                        name: "level".to_owned(),
                        ty: ResolvedTypeRef::Primitive(PrimitiveType::U32),
                    },
                    ResolvedParam {
                        name: "format".to_owned(),
                        ty: ResolvedTypeRef::AbiType(AbiBuiltin::StringView),
                    },
                ],
                returns: None,
            },
        ],
    };
    let mut out: String = String::new();
    generate_cpp_host_contract_trait(&mut out, &contract);
    assert!(out.contains("class HostLogger"), "missing class: {out}");
    assert!(
        out.contains("virtual ~HostLogger() = default"),
        "missing virtual destructor: {out}"
    );
    assert!(
        out.contains("virtual void log(StringView message) = 0"),
        "missing log method: {out}"
    );
    assert!(
        out.contains("virtual void logf(uint32_t level, StringView format) = 0"),
        "missing logf method: {out}"
    );
}

#[test]
fn generate_cpp_host_contracts_file_produces_file() {
    let ir: ValidatedIr = ValidatedIr {
        types: vec![],
        enums: vec![],
        contracts: vec![],
        host_contracts: vec![ResolvedHostContract {
            name: "host.logger".to_owned(),
            contract_id: 0x1234_5678_9ABC_DEF0_u64,
            version: Version {
                major: 1,
                minor: 0,
                patch: 0,
            },
            singleton: false,
            functions: vec![ResolvedFunction {
                name: "log".to_owned(),
                function_id: 0,
                params: vec![ResolvedParam {
                    name: "message".to_owned(),
                    ty: ResolvedTypeRef::AbiType(AbiBuiltin::StringView),
                }],
                returns: None,
            }],
        }],
        bundle: None,
    };
    let out: String = generate_cpp_host_contracts_file(&ir);
    assert!(out.contains("AUTO-GENERATED"), "missing header: {out}");
    assert!(out.contains("class HostLogger"), "missing class: {out}");
    assert!(
        out.contains("HOSTLOGGER_CONTRACT_ID"),
        "missing constant: {out}"
    );
    assert!(
        out.contains("namespace polyplug_host"),
        "missing namespace: {out}"
    );
}

#[test]
fn generate_host_with_host_contracts_produces_host_contracts_file() {
    let generator: CppGenerator = CppGenerator;
    let ir: ValidatedIr = ValidatedIr {
        types: vec![],
        enums: vec![],
        contracts: vec![],
        host_contracts: vec![ResolvedHostContract {
            name: "host.logger".to_owned(),
            contract_id: 0x1234_5678_9ABC_DEF0_u64,
            version: Version {
                major: 1,
                minor: 0,
                patch: 0,
            },
            singleton: false,
            functions: vec![ResolvedFunction {
                name: "log".to_owned(),
                function_id: 0,
                params: vec![],
                returns: None,
            }],
        }],
        bundle: None,
    };
    let mut files: GeneratedFiles = GeneratedFiles::default();
    generator
        .generate_host(&ir, &mut files)
        .expect("generate_host");
    let names: Vec<String> = files
        .files
        .iter()
        .map(|f: &GeneratedFile| f.path.clone())
        .collect();
    assert!(
        names.contains(&"host/host_contracts.hpp".to_owned()),
        "missing host_contracts.hpp: {names:?}"
    );
}

#[test]
fn generate_host_without_host_contracts_no_host_contracts_file() {
    let generator: CppGenerator = CppGenerator;
    let ir: ValidatedIr = ValidatedIr {
        types: vec![],
        enums: vec![],
        contracts: vec![],
        host_contracts: vec![],
        bundle: None,
    };
    let mut files: GeneratedFiles = GeneratedFiles::default();
    generator
        .generate_host(&ir, &mut files)
        .expect("generate_host");
    let names: Vec<String> = files
        .files
        .iter()
        .map(|f: &GeneratedFile| f.path.clone())
        .collect();
    assert!(
        !names.contains(&"host/host_contracts.hpp".to_owned()),
        "unexpected host_contracts.hpp: {names:?}"
    );
}

#[test]
fn host_contract_name_to_cpp_caller_conversion() {
    assert_eq!(
        host_contract_name_to_cpp_caller("host.logger"),
        "HostLoggerContract"
    );
    assert_eq!(
        host_contract_name_to_cpp_caller("host.fs.reader"),
        "HostFsReaderContract"
    );
    assert_eq!(
        host_contract_name_to_cpp_caller("host.HostLogger"),
        "HostLoggerContract"
    );
    assert_eq!(
        host_contract_name_to_cpp_caller("logger"),
        "HostLoggerContract"
    );
}

#[test]
fn cpp_guest_caller_param_type_name_mappings() {
    assert_eq!(
        cpp_guest_caller_param_type_name(&ResolvedTypeRef::Primitive(PrimitiveType::U32)),
        "uint32_t"
    );
    assert_eq!(
        cpp_guest_caller_param_type_name(&ResolvedTypeRef::AbiType(AbiBuiltin::StringView)),
        "std::string_view"
    );
    assert_eq!(
        cpp_guest_caller_param_type_name(&ResolvedTypeRef::AbiType(AbiBuiltin::Buffer)),
        "Buffer"
    );
    assert_eq!(
        cpp_guest_caller_param_type_name(&ResolvedTypeRef::UserDefined("MyStruct".to_owned())),
        "const MyStruct&"
    );
}

#[test]
fn cpp_guest_caller_return_type_name_mappings() {
    assert_eq!(
        cpp_guest_caller_return_type_name(&ResolvedTypeRef::Primitive(PrimitiveType::U32)),
        "uint32_t"
    );
    assert_eq!(
        cpp_guest_caller_return_type_name(&ResolvedTypeRef::AbiType(AbiBuiltin::StringView)),
        "std::string_view"
    );
    assert_eq!(
        cpp_guest_caller_return_type_name(&ResolvedTypeRef::AbiType(AbiBuiltin::Buffer)),
        "std::span<const std::uint8_t>"
    );
    assert_eq!(
        cpp_guest_caller_return_type_name(&ResolvedTypeRef::UserDefined("MyStruct".to_owned())),
        "MyStruct"
    );
}

#[test]
fn cpp_guest_caller_return_expr_is_null_safe() {
    // A null/empty StringView/Buffer return is legal at the ABI boundary; constructing a
    // std::string_view from a null pointer is UB before C++26, so the emitted return must
    // route through the SDK's null-safe to_string_view, and the span must guard the pointer.
    let sv_expr: String =
        cpp_guest_caller_return_expr(&ResolvedTypeRef::AbiType(AbiBuiltin::StringView));
    assert_eq!(sv_expr, "polyplug::to_string_view(out)");
    assert!(
        !sv_expr.contains("std::string_view(reinterpret_cast"),
        "StringView return must not build string_view from raw ptr (UB on null): {sv_expr}"
    );

    let buf_expr: String =
        cpp_guest_caller_return_expr(&ResolvedTypeRef::AbiType(AbiBuiltin::Buffer));
    assert!(
        buf_expr.contains("out.ptr ?"),
        "Buffer return must guard the null pointer before building a span: {buf_expr}"
    );
}

#[test]
fn generate_cpp_guest_host_contract_caller_produces_class() {
    let contract = ResolvedHostContract {
        name: "host.logger".to_owned(),
        contract_id: 0x1234_5678_9ABC_DEF0_u64,
        version: Version {
            major: 1,
            minor: 0,
            patch: 0,
        },
        singleton: false,
        functions: vec![ResolvedFunction {
            name: "log".to_owned(),
            function_id: 0,
            params: vec![ResolvedParam {
                name: "message".to_owned(),
                ty: ResolvedTypeRef::AbiType(AbiBuiltin::StringView),
            }],
            returns: None,
        }],
    };
    let mut out: String = String::new();
    generate_cpp_guest_host_contract_caller(&mut out, &contract);
    assert!(
        out.contains("class HostLoggerContract"),
        "missing class: {out}"
    );
    assert!(
        out.contains("const HostContractInterface* interface_"),
        "missing interface member: {out}"
    );
    assert!(
        out.contains("HostContractInstance instance_"),
        "missing instance member: {out}"
    );
    assert!(
        out.contains("static std::optional<HostLoggerContract> from_host"),
        "missing from_host method: {out}"
    );
    assert!(
        out.contains("void log(std::string_view message) noexcept"),
        "missing log method: {out}"
    );
    assert!(
        out.contains("bool is_valid() const noexcept"),
        "missing is_valid method: {out}"
    );
}

#[test]
fn generate_cpp_guest_host_contracts_file_produces_file() {
    let ir: ValidatedIr = ValidatedIr {
        types: vec![],
        enums: vec![],
        contracts: vec![],
        host_contracts: vec![ResolvedHostContract {
            name: "host.logger".to_owned(),
            contract_id: 0x1234_5678_9ABC_DEF0_u64,
            version: Version {
                major: 1,
                minor: 0,
                patch: 0,
            },
            singleton: false,
            functions: vec![ResolvedFunction {
                name: "log".to_owned(),
                function_id: 0,
                params: vec![],
                returns: None,
            }],
        }],
        bundle: None,
    };
    let out: String = generate_cpp_guest_host_contracts_file(&ir);
    assert!(out.contains("AUTO-GENERATED"), "missing header: {out}");
    assert!(
        out.contains("class HostLoggerContract"),
        "missing class: {out}"
    );
    assert!(
        out.contains("HOSTLOGGERCONTRACT_ID"),
        "missing constant: {out}"
    );
    assert!(
        out.contains("namespace polyplug_plugin"),
        "missing namespace: {out}"
    );
}

#[test]
fn generate_guest_with_host_contracts_produces_guest_host_contracts_file() {
    let generator: CppGenerator = CppGenerator;
    let ir: ValidatedIr = ValidatedIr {
        types: vec![],
        enums: vec![],
        contracts: vec![],
        host_contracts: vec![ResolvedHostContract {
            name: "host.logger".to_owned(),
            contract_id: 0x1234_5678_9ABC_DEF0_u64,
            version: Version {
                major: 1,
                minor: 0,
                patch: 0,
            },
            singleton: false,
            functions: vec![ResolvedFunction {
                name: "log".to_owned(),
                function_id: 0,
                params: vec![],
                returns: None,
            }],
        }],
        bundle: None,
    };
    let mut files: GeneratedFiles = GeneratedFiles::default();
    generator
        .generate_guest(&ir, &mut files)
        .expect("generate_guest");
    let names: Vec<String> = files
        .files
        .iter()
        .map(|f: &GeneratedFile| f.path.clone())
        .collect();
    assert!(
        names.contains(&"guest/host_contracts.hpp".to_owned()),
        "missing guest/host_contracts.hpp: {names:?}"
    );
}

#[test]
fn generate_guest_without_host_contracts_no_guest_host_contracts_file() {
    let generator: CppGenerator = CppGenerator;
    let ir: ValidatedIr = ValidatedIr {
        types: vec![],
        enums: vec![],
        contracts: vec![],
        host_contracts: vec![],
        bundle: None,
    };
    let mut files: GeneratedFiles = GeneratedFiles::default();
    generator
        .generate_guest(&ir, &mut files)
        .expect("generate_guest");
    let names: Vec<String> = files
        .files
        .iter()
        .map(|f: &GeneratedFile| f.path.clone())
        .collect();
    assert!(
        !names.contains(&"guest/host_contracts.hpp".to_owned()),
        "unexpected guest/host_contracts.hpp: {names:?}"
    );
}

#[test]
fn generate_host_with_host_contracts_produces_interface_factories_file() {
    let generator: CppGenerator = CppGenerator;
    let ir: ValidatedIr = ValidatedIr {
        types: vec![],
        enums: vec![],
        contracts: vec![],
        host_contracts: vec![ResolvedHostContract {
            name: "host.logger".to_owned(),
            contract_id: 0x1234_5678_9ABC_DEF0_u64,
            version: Version {
                major: 1,
                minor: 0,
                patch: 0,
            },
            singleton: false,
            functions: vec![ResolvedFunction {
                name: "log".to_owned(),
                function_id: 0,
                params: vec![],
                returns: None,
            }],
        }],
        bundle: None,
    };
    let mut files: GeneratedFiles = GeneratedFiles::default();
    generator
        .generate_host(&ir, &mut files)
        .expect("generate_host");
    let names: Vec<String> = files
        .files
        .iter()
        .map(|f: &GeneratedFile| f.path.clone())
        .collect();
    assert!(
        names.contains(&"host/interface_factories.hpp".to_owned()),
        "missing interface_factories.hpp: {names:?}"
    );
}

#[test]
fn generate_host_without_host_contracts_no_interface_factories_file() {
    let generator: CppGenerator = CppGenerator;
    let ir: ValidatedIr = ValidatedIr {
        types: vec![],
        enums: vec![],
        contracts: vec![],
        host_contracts: vec![],
        bundle: None,
    };
    let mut files: GeneratedFiles = GeneratedFiles::default();
    generator
        .generate_host(&ir, &mut files)
        .expect("generate_host");
    let names: Vec<String> = files
        .files
        .iter()
        .map(|f: &GeneratedFile| f.path.clone())
        .collect();
    assert!(
        !names.contains(&"host/interface_factories.hpp".to_owned()),
        "unexpected interface_factories.hpp: {names:?}"
    );
}

#[test]
fn generate_cpp_host_interface_factories_file_produces_file() {
    let ir: ValidatedIr = ValidatedIr {
        types: vec![],
        enums: vec![],
        contracts: vec![],
        host_contracts: vec![ResolvedHostContract {
            name: "host.logger".to_owned(),
            contract_id: 0x1234_5678_9ABC_DEF0_u64,
            version: Version {
                major: 1,
                minor: 0,
                patch: 0,
            },
            singleton: false,
            functions: vec![ResolvedFunction {
                name: "log".to_owned(),
                function_id: 0,
                params: vec![ResolvedParam {
                    name: "message".to_owned(),
                    ty: ResolvedTypeRef::AbiType(AbiBuiltin::StringView),
                }],
                returns: None,
            }],
        }],
        bundle: None,
    };
    let out: String = generate_cpp_host_interface_factories_file(&ir);
    assert!(out.contains("AUTO-GENERATED"), "missing header: {out}");
    assert!(
        out.contains("template<typename T>"),
        "missing template: {out}"
    );
    assert!(
        out.contains("create_host_logger_interface"),
        "missing NATIVE factory: {out}"
    );
    assert!(
        out.contains("create_host_logger_interface_vm"),
        "missing VM factory: {out}"
    );
    assert!(
        out.contains("std::unique_ptr<T> impl"),
        "missing unique_ptr param: {out}"
    );
    assert!(
        out.contains("VmDispatch_call_fn dispatch_fn"),
        "missing dispatch_fn param: {out}"
    );
    assert!(
        out.contains("namespace polyplug_host"),
        "missing namespace: {out}"
    );
}

#[test]
fn generate_cpp_host_interface_factory_produces_native_and_vm_factories() {
    let contract = ResolvedHostContract {
        name: "host.logger".to_owned(),
        contract_id: 0x1234_5678_9ABC_DEF0_u64,
        version: Version {
            major: 1,
            minor: 0,
            patch: 0,
        },
        singleton: false,
        functions: vec![ResolvedFunction {
            name: "log".to_owned(),
            function_id: 0,
            params: vec![ResolvedParam {
                name: "message".to_owned(),
                ty: ResolvedTypeRef::AbiType(AbiBuiltin::StringView),
            }],
            returns: None,
        }],
    };
    let mut out: String = String::new();
    generate_cpp_host_interface_factory(&mut out, &contract);
    assert!(
        out.contains("template<typename T>"),
        "missing template: {out}"
    );
    assert!(
        out.contains("const HostContractInterface* create_host_logger_interface"),
        "missing NATIVE factory: {out}"
    );
    assert!(
        out.contains("std::unique_ptr<T> impl"),
        "missing unique_ptr: {out}"
    );
    assert!(
        out.contains("T* impl_ptr = impl.release();"),
        "implementation must be released into a local, not a static: {out}"
    );
    assert!(
        out.contains("s_interface.user_data = static_cast<void*>(impl_ptr);"),
        "implementation must be routed through user_data, not a static: {out}"
    );
    assert!(
        !out.contains("s_impl"),
        "host factory must not hold the implementation in a static: {out}"
    );
    assert!(
        out.contains("static void* const FUNCTIONS"),
        "missing function array: {out}"
    );
    assert!(
        out.contains("host_logger_log_thunk"),
        "missing thunk: {out}"
    );
    assert!(
        out.contains("create_host_logger_interface_vm"),
        "missing VM factory: {out}"
    );
    assert!(
        out.contains("VmDispatch_call_fn dispatch_fn"),
        "missing dispatch_fn: {out}"
    );
    assert!(
        out.contains("create_instance_stub"),
        "missing create_instance stub: {out}"
    );
    assert!(
        out.contains("destroy_instance_stub"),
        "missing destroy_instance stub: {out}"
    );
}

#[test]
fn cpp_peer_caller_emitted_for_declared_dependency() {

    let contract_id: u64 = 0xDEAD_BEEF_1234_5678_u64;
    let ir: ValidatedIr = ValidatedIr {
        types: vec![],
        enums: vec![],
        contracts: vec![ResolvedContract {
            name: "pipeline.Validator".to_owned(),
            contract_id,
            version: Version {
                major: 1,
                minor: 0,
                patch: 0,
            },
            functions: vec![ResolvedFunction {
                name: "validate".to_owned(),
                function_id: 0,
                params: vec![ResolvedParam {
                    name: "input".to_owned(),
                    ty: ResolvedTypeRef::AbiType(AbiBuiltin::StringView),
                }],
                returns: Some(ResolvedTypeRef::AbiType(AbiBuiltin::StringView)),
            }],
        }],
        host_contracts: vec![],
        bundle: Some(ResolvedBundle {
            name: "cpp_transformer".to_owned(),
            bundle_id: 0xAAAA_BBBB_CCCC_DDDD_u64,
            version: Version {
                major: 1,
                minor: 0,
                patch: 0,
            },
            runtime: "native".to_owned(),
            loader: "native".to_owned(),
            file: ResolvedBundleFile::Single("test.so".to_owned()),
            plugins: vec![ResolvedPlugin {
                name: "transformer".to_owned(),
                version: Version {
                    major: 1,
                    minor: 0,
                    patch: 0,
                },
                implements: vec!["data.Transformer@1".to_owned()],
                optional: vec![],
            }],
            dependencies: vec![ResolvedDependency::ByContract {
                contract: "pipeline.Validator".to_owned(),
                contract_id,
                min_version: 1,
            }],
            needs_reinit_on_dep_reload: false,
        }),
    };

    let generator: CppGenerator = CppGenerator;
    let mut files: GeneratedFiles = GeneratedFiles::default();
    generator
        .generate_guest(&ir, &mut files)
        .expect("generate_guest");

    let names: Vec<String> = files
        .files
        .iter()
        .map(|f: &GeneratedFile| f.path.clone())
        .collect();
    assert!(
        names.contains(&"guest/peer_callers.hpp".to_owned()),
        "expected guest/peer_callers.hpp, got: {names:?}"
    );

    let peer_file: &GeneratedFile = files
        .files
        .iter()
        .find(|f: &&GeneratedFile| f.path == "guest/peer_callers.hpp")
        .expect("peer_callers.hpp must be present");

    assert!(
        peer_file.content.contains("PipelineValidatorContractPeer"),
        "expected peer class name in output:\n{}",
        peer_file.content
    );
    assert!(
        peer_file.content.contains("call_guest_method"),
        "peer caller must use call_guest_method:\n{}",
        peer_file.content
    );
    assert!(
        peer_file.content.contains("find_guest_contract"),
        "resolve() must call find_guest_contract:\n{}",
        peer_file.content
    );
    assert!(
        peer_file.content.contains("resolve_guest_contract"),
        "resolve() must call resolve_guest_contract:\n{}",
        peer_file.content
    );
    assert!(
        peer_file.content.contains("polyplug::get_host_interface()"),
        "resolve() must use polyplug::get_host_interface():\n{}",
        peer_file.content
    );
    assert!(
        peer_file.content.contains("AUTO-GENERATED"),
        "missing AUTO-GENERATED header:\n{}",
        peer_file.content
    );
}

#[test]
fn cpp_no_peer_callers_without_dependencies() {
    let generator: CppGenerator = CppGenerator;
    let ir: ValidatedIr = ValidatedIr {
        types: vec![],
        enums: vec![],
        contracts: vec![ResolvedContract {
            name: "pipeline.Validator".to_owned(),
            contract_id: 0xDEAD_BEEF_1234_5678_u64,
            version: Version {
                major: 1,
                minor: 0,
                patch: 0,
            },
            functions: vec![],
        }],
        host_contracts: vec![],
        bundle: None,
    };
    let mut files: GeneratedFiles = GeneratedFiles::default();
    generator
        .generate_guest(&ir, &mut files)
        .expect("generate_guest");
    let names: Vec<String> = files
        .files
        .iter()
        .map(|f: &GeneratedFile| f.path.clone())
        .collect();
    assert!(
        !names.contains(&"guest/peer_callers.hpp".to_owned()),
        "must NOT emit peer_callers.hpp without a bundle: {names:?}"
    );
}

