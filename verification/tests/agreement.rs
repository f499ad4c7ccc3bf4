use polyplugc::generators::cpp::{host_contract_name_to_cpp_trait, build_args_ptr_code, generate_bundle_manifest_cpp, generate_cpp_host_function, generate_cpp_peer_fn_caller};
use polyplugc::generators::emit_manifest_dependencies;
use polyplugc::generators::js_quickjs::{
    deno_args_total_size, emit_ts_guest_host_contract_args_setup, generate_manifest_toml, host_contract_name_to_ts_interface,
};
use polyplugc::generators::lua::{
    generate_bundle_manifest_lua, generate_guest_host_contracts_file, generate_lua_host_interface_factories_file,
    host_contract_name_to_lua_class,
};
use polyplugc::ir::{
    PrimitiveType, ResolvedBundle, ResolvedBundleFile, ResolvedDependency, ResolvedFunction, ResolvedParam,
    ResolvedField, ResolvedHostContract, ResolvedPlugin, ResolvedType, ResolvedTypeRef, ValidatedIr, Version, AbiBuiltin,
};

fn bundle_ir() -> ValidatedIr {
    ValidatedIr {
        types: vec![],
        enums: vec![],
        contracts: vec![],
        host_contracts: vec![],
        bundle: Some(ResolvedBundle {
            name: "agree.bundle".to_owned(),
            version: Version { major: 2, minor: 1, patch: 3 },
            loader: "quickjs".to_owned(),
            runtime: "quickjs".to_owned(),
            file: ResolvedBundleFile::Single("main.js".to_owned()),
            plugins: vec![ResolvedPlugin {
                name: "p".to_owned(),
                version: Version { major: 1, minor: 0, patch: 0 },
                implements: vec!["img.Decode@1.0".to_owned()],
                optional: vec![],
            }],
            bundle_id: 0xABCD_0000_0000_0001,
            dependencies: vec![
                ResolvedDependency::ByContract {
                    contract: "a.B".to_owned(),
                    contract_id: 0x10,
                    min_version: 3,
                },
                ResolvedDependency::ByBundle {
                    bundle: "other".to_owned(),
                    bundle_id: 0x20,
                    contract: "c.D".to_owned(),
                    contract_id: 0x30,
                    min_version: 1,
                },
            ],
            needs_reinit_on_dep_reload: true,
        }),
    }
}

#[test]
fn own_manifests_share_dependency_tables() {
    let ir = bundle_ir();
    let tables = emit_manifest_dependencies(&ir.bundle.as_ref().expect("bundle").dependencies);
    assert!(tables.contains("kind = \"bundle\"\nbundle = \"other\"\nbundle_id = 0x0000000000000020\n"));
    let cpp = generate_bundle_manifest_cpp(&ir);
    let lua = generate_bundle_manifest_lua(&ir);
    let js = generate_manifest_toml(&ir);
    assert!(cpp.ends_with(&tables));
    assert!(lua.ends_with(&tables));
    assert_eq!(lua, js);
    assert!(cpp.contains("runtime = \"native\"\n"));
    assert!(lua.contains("loader = \"quickjs\"\n"));
}

#[test]
fn own_peer_caller_marshals_like_host_caller() {
    let func = ResolvedFunction {
        name: "resize".to_owned(),
        function_id: 4,
        params: vec![
            ResolvedParam { name: "width".to_owned(), ty: ResolvedTypeRef::Primitive(PrimitiveType::U32) },
            ResolvedParam { name: "label".to_owned(), ty: ResolvedTypeRef::AbiType(AbiBuiltin::StringView) },
        ],
        returns: Some(ResolvedTypeRef::AbiType(AbiBuiltin::Buffer)),
    };
    let args = build_args_ptr_code("ImgCaller", &func);
    assert!(args.contains("struct ImgCallerResizeArgs {"));
    let mut host = String::new();
    generate_cpp_host_function(&mut host, "ImgCaller", &func).expect("host");
    let mut peer = String::new();
    generate_cpp_peer_fn_caller(&mut peer, "ImgCaller", &func);
    assert!(host.contains(&args));
    assert!(peer.contains(&args));
    assert!(host.contains("Buffer out{};\n        void* out_ptr = &out;\n"));
    assert!(peer.contains("Buffer out{};\n        void* out_ptr = &out;\n"));
    assert!(host.contains("args_ptr, out_ptr, &arena_);"));
    assert!(peer.contains("args_ptr, out_ptr, &arena_);"));
}

fn param(name: &str, ty: ResolvedTypeRef) -> ResolvedParam {
    ResolvedParam { name: name.to_owned(), ty }
}

fn host_contracts_ir() -> ValidatedIr {
    let two = |name: &str, id: u32| ResolvedFunction {
        name: name.to_owned(),
        function_id: id,
        params: vec![
            param("a", ResolvedTypeRef::Primitive(PrimitiveType::U32)),
            param("b", ResolvedTypeRef::AbiType(AbiBuiltin::StringView)),
        ],
        returns: None,
    };
    let one = ResolvedFunction {
        name: "ping".to_owned(),
        function_id: 1,
        params: vec![param("x", ResolvedTypeRef::Primitive(PrimitiveType::I64))],
        returns: None,
    };
    ValidatedIr {
        types: vec![],
        enums: vec![],
        contracts: vec![],
        host_contracts: vec![
            ResolvedHostContract {
                name: "host.fs.reader".to_owned(),
                contract_id: 7,
                version: Version { major: 1, minor: 0, patch: 0 },
                singleton: false,
                functions: vec![two("read_at", 0), one],
            },
            ResolvedHostContract {
                name: "host.net".to_owned(),
                contract_id: 8,
                version: Version { major: 2, minor: 0, patch: 0 },
                singleton: true,
                functions: vec![two("send_to_peer", 0)],
            },
        ],
        bundle: None,
    }
}

#[test]
fn own_lua_factory_casts_to_declared_packs() {
    let out = generate_lua_host_interface_factories_file(&host_contracts_ir());
    for st in ["HostFsReaderReadAtArgs", "HostNetSendToPeerArgs"] {
        assert!(out.contains(&format!("    }} {st};\n")), "{st} declared: {out}");
        assert!(
            out.contains(&format!("                local packed = ffi.cast(\"const {st}*\", args)[0]\n")),
            "{st} cast: {out}"
        );
    }
    assert!(!out.contains("HostFsReaderPingArgs"));
}

#[test]
fn own_lua_guest_callers_allocate_declared_packs() {
    let ir = host_contracts_ir();
    let guest = generate_guest_host_contracts_file(&ir);
    let host = generate_lua_host_interface_factories_file(&ir);
    let fields = "    typedef struct {\n        uint32_t a;\n        StringView b;\n    } ";
    for (guest_st, host_st) in [
        ("HostFsReaderContractReadAtArgs", "HostFsReaderReadAtArgs"),
        ("HostNetContractSendToPeerArgs", "HostNetSendToPeerArgs"),
    ] {
        assert!(guest.contains(&format!("{fields}{guest_st};\n")), "{guest_st} declared: {guest}");
        assert!(guest.contains(&format!("    local args_val = ffi.new(\"{guest_st}\")\n")), "{guest_st} allocated: {guest}");
        assert!(host.contains(&format!("{fields}{host_st};\n")), "{host_st} declared: {host}");
    }
}

#[test]
fn own_dependency_tables_concatenate() {
    let ir = bundle_ir();
    let deps = ir.bundle.expect("bundle").dependencies;
    assert_eq!(emit_manifest_dependencies(&vec![]), "");
    let whole = emit_manifest_dependencies(&deps);
    let first = emit_manifest_dependencies(&deps[..1].to_vec());
    let second = emit_manifest_dependencies(&deps[1..].to_vec());
    assert_eq!(whole, format!("{first}{second}"));
    assert!(!first.contains("bundle_id"));
    assert!(second.contains("bundle_id = 0x0000000000000020"));
}

#[test]
fn own_host_class_names_agree() {
    for name in ["host.logger", "host.fs.reader", "HostThing.x", "plain"] {
        let cpp = host_contract_name_to_cpp_trait(name);
        assert_eq!(cpp, host_contract_name_to_lua_class(name));
        assert_eq!(cpp, host_contract_name_to_ts_interface(name));
        assert!(cpp.starts_with("Host"), "{cpp}");
        assert!(!cpp.contains('.'), "{cpp}");
    }
    assert_eq!(host_contract_name_to_cpp_trait("host.fs.reader"), "HostFsReader");
}

#[test]
fn own_quickjs_pack_size_is_deno_size() {
    let ir = ValidatedIr {
        types: vec![ResolvedType {
            name: "Pt".to_owned(),
            fields: vec![
                ResolvedField { name: "x".to_owned(), ty: ResolvedTypeRef::Primitive(PrimitiveType::U8) },
                ResolvedField { name: "y".to_owned(), ty: ResolvedTypeRef::Primitive(PrimitiveType::U64) },
            ],
        }],
        enums: vec![],
        contracts: vec![],
        host_contracts: vec![],
        bundle: None,
    };
    let func = ResolvedFunction {
        name: "put".to_owned(),
        function_id: 0,
        params: vec![
            param("flag", ResolvedTypeRef::Primitive(PrimitiveType::U8)),
            param("p", ResolvedTypeRef::UserDefined("Pt".to_owned())),
            param("tag", ResolvedTypeRef::Primitive(PrimitiveType::U16)),
        ],
        returns: None,
    };
    let n = deno_args_total_size(&func, &ir).expect("deno size");
    assert_eq!(n, 32);
    let mut out = String::new();
    emit_ts_guest_host_contract_args_setup(&mut out, &func, &ir).expect("pack");
    assert!(out.contains(&format!("        const _argsBuf = _callerAlloc({n});\n")), "{out}");
}
