use polyplugc::error::CodegenError;
use polyplugc::generators::js_quickjs::{
    align_up, deno_caller_ts_type, emit_deno_read_local, emit_deno_write_value, emit_js_write_value, emit_ts_caller_pack_value,
    js_c_align, js_c_size, js_caller_slot_layout, js_ptr_at, js_read_expr, render_plugin_interface_quickjs,
    emit_ts_guest_host_contract_args_setup,
};
use polyplugc::generators::manifest::sort_dedup;
use polyplugc::output::{generate_files, hex_encode, lang_name_of, needs_write, parse_lang, Lang, Side, WriteSummary};
use polyplugc::ir::{
    AbiBuiltin, EnumDef, EnumVariant, PrimitiveType, ReprType, ResolvedContract, ResolvedField, ResolvedFunction,
    ResolvedParam, ResolvedType, ResolvedTypeRef, ValidatedIr, Version,
};

fn ir_with(types: Vec<ResolvedType>, enums: Vec<EnumDef>) -> ValidatedIr {
    ValidatedIr { types, enums, contracts: vec![], host_contracts: vec![], bundle: None }
}

fn field(name: &str, ty: ResolvedTypeRef) -> ResolvedField {
    ResolvedField { name: name.to_owned(), ty }
}

fn prim(p: PrimitiveType) -> ResolvedTypeRef {
    ResolvedTypeRef::Primitive(p)
}

fn named(n: &str) -> ResolvedTypeRef {
    ResolvedTypeRef::UserDefined(n.to_owned())
}

fn pair_ir() -> ValidatedIr {
    ir_with(
        vec![ResolvedType {
            name: "Pair".to_owned(),
            fields: vec![field("tag", prim(PrimitiveType::U8)), field("value", prim(PrimitiveType::U32))],
        }],
        vec![],
    )
}

#[test]
fn own_align_up_rounds_to_next_multiple() {
    assert_eq!(align_up(5, 4), 8);
    assert_eq!(align_up(8, 8), 8);
    assert_eq!(align_up(0, 8), 0);
    assert_eq!(align_up(3, 0), 3);
    assert_eq!(align_up(9, 1), 9);
}

#[test]
fn own_ptr_at_omits_zero_offset() {
    assert_eq!(js_ptr_at("p", 0), "p");
    assert_eq!(js_ptr_at("p", 12), "p + 12");
}

#[test]
fn own_struct_layout_pads_to_largest_alignment() {
    let ir: ValidatedIr = pair_ir();
    assert_eq!(js_c_size(&named("Pair"), &ir).expect("size"), 8);
    assert_eq!(js_c_align(&named("Pair"), &ir).expect("align"), 4);
    // A size is always a multiple of the alignment.
    let s: usize = js_c_size(&named("Pair"), &ir).expect("size");
    let a: usize = js_c_align(&named("Pair"), &ir).expect("align");
    assert_eq!(s % a, 0);
}

#[test]
fn own_nested_struct_layout() {
    let ir: ValidatedIr = ir_with(
        vec![
            ResolvedType {
                name: "Inner".to_owned(),
                fields: vec![field("a", prim(PrimitiveType::U8)), field("b", prim(PrimitiveType::U64))],
            },
            ResolvedType {
                name: "Outer".to_owned(),
                fields: vec![field("x", prim(PrimitiveType::U16)), field("inner", named("Inner"))],
            },
        ],
        vec![],
    );
    assert_eq!(js_c_size(&named("Inner"), &ir).expect("inner"), 16);
    assert_eq!(js_c_size(&named("Outer"), &ir).expect("outer"), 24);
    assert_eq!(js_c_align(&named("Outer"), &ir).expect("outer align"), 8);
}

#[test]
fn own_self_containing_struct_is_unsupported() {
    let ir: ValidatedIr = ir_with(
        vec![ResolvedType { name: "Loop".to_owned(), fields: vec![field("next", named("Loop"))] }],
        vec![],
    );
    match js_c_size(&named("Loop"), &ir) {
        Err(CodegenError::UnsupportedType { ty, lang }) => {
            assert_eq!(ty, "Loop");
            assert_eq!(lang, "js-quickjs");
        },
        other => panic!("unexpected: {other:?}"),
    }
}

#[test]
fn own_unknown_type_is_unsupported() {
    let ir: ValidatedIr = ir_with(vec![], vec![]);
    match js_read_expr(&named("Ghost"), "p", 0, &ir) {
        Err(CodegenError::UnsupportedType { ty, lang }) => {
            assert_eq!(ty, "Ghost");
            assert_eq!(lang, "js-quickjs");
        },
        other => panic!("unexpected: {other:?}"),
    }
}

#[test]
fn own_void_read_is_unsupported() {
    let ir: ValidatedIr = ir_with(vec![], vec![]);
    match js_read_expr(&ResolvedTypeRef::AbiType(AbiBuiltin::Void), "p", 0, &ir) {
        Err(CodegenError::UnsupportedType { ty, .. }) => assert_eq!(ty, "void"),
        other => panic!("unexpected: {other:?}"),
    }
}

#[test]
fn own_read_expressions_exact() {
    let ir: ValidatedIr = pair_ir();
    assert_eq!(
        js_read_expr(&prim(PrimitiveType::U16), "p", 2, &ir).expect("u16"),
        "(polyplug.readByte(p + 2) | (polyplug.readByte(p + 3) << 8))"
    );
    assert_eq!(
        js_read_expr(&prim(PrimitiveType::I8), "p", 0, &ir).expect("i8"),
        "((polyplug.readByte(p) << 24) >> 24)"
    );
    assert_eq!(
        js_read_expr(&named("Pair"), "args_ptr", 8, &ir).expect("pair"),
        "{ tag: polyplug.readByte(args_ptr + 8), value: polyplug.readU32(args_ptr + 12) }"
    );
}

#[test]
fn own_write_statements_exact() {
    let ir: ValidatedIr = pair_ir();
    let mut out: String = String::new();
    emit_js_write_value(&mut out, "  ", &prim(PrimitiveType::U64), "o", 0, "v", &ir).expect("u64");
    assert_eq!(out, "  polyplug.writeU32(o, v.lo);\n  polyplug.writeU32(o + 4, v.hi);\n");
    let mut out2: String = String::new();
    emit_js_write_value(&mut out2, "", &named("Pair"), "o", 0, "r", &ir).expect("pair");
    assert_eq!(out2, "polyplug.writeByte(o, r.tag & 0xFF);\npolyplug.writeU32(o + 4, r.value);\n");
}

#[test]
fn own_write_error_leaves_output_unchanged() {
    let ir: ValidatedIr = ir_with(vec![], vec![]);
    let mut out: String = "keep".to_owned();
    assert!(emit_js_write_value(&mut out, "", &named("Nope"), "o", 0, "v", &ir).is_err());
    assert_eq!(out, "keep");
}

#[test]
fn own_caller_slot_layouts() {
    let enums: Vec<EnumDef> = vec![EnumDef {
        name: "Mode".to_owned(),
        repr: ReprType::U16,
        bitflag: false,
        variants: vec![EnumVariant { name: "A".to_owned(), value: "0".to_owned() }],
    }];
    let ir: ValidatedIr = ir_with(vec![], enums);
    assert_eq!(js_caller_slot_layout(&ResolvedTypeRef::AbiType(AbiBuiltin::StringView), &ir).expect("sv"), (16, 8));
    assert_eq!(js_caller_slot_layout(&ResolvedTypeRef::AbiType(AbiBuiltin::Buffer), &ir).expect("buf"), (24, 8));
    assert_eq!(js_caller_slot_layout(&ResolvedTypeRef::AbiType(AbiBuiltin::Void), &ir).expect("void"), (0, 1));
    assert_eq!(js_caller_slot_layout(&named("Mode"), &ir).expect("enum"), (2, 2));
}

#[test]
fn own_caller_pack_and_wrapper_read_share_offsets() {
    // (u32, StringView): both sides place the view at offset 8.
    let func: ResolvedFunction = ResolvedFunction {
        name: "log_with_count".to_owned(),
        function_id: 0,
        params: vec![
            ResolvedParam { name: "count".to_owned(), ty: prim(PrimitiveType::U32) },
            ResolvedParam { name: "message".to_owned(), ty: ResolvedTypeRef::AbiType(AbiBuiltin::StringView) },
        ],
        returns: None,
    };
    let ir: ValidatedIr = ir_with(vec![], vec![]);
    let mut caller: String = String::new();
    emit_ts_guest_host_contract_args_setup(&mut caller, &func, &ir).expect("pack");
    assert!(caller.contains("polyplug.writeU32(argsPtr + 8, _messageDataBuf[0]);"), "{caller}");
    assert!(caller.contains("const _argsBuf = _callerAlloc(24);"), "{caller}");
    let contract: ResolvedContract = ResolvedContract {
        name: "test.shapes".to_owned(),
        contract_id: 0x0123_4567_89AB_CDEF,
        version: Version { major: 1, minor: 0, patch: 0 },
        functions: vec![func],
    };
    let mut wrapper: String = String::new();
    render_plugin_interface_quickjs(&mut wrapper, "shapes_plugin", &contract, &ir).expect("wrapper");
    assert!(wrapper.contains("var arg_message = { ptr_lo: polyplug.readU32(args_ptr + 8)"), "{wrapper}");
    // The interface carries the id computed from `test.shapes@1`, not the field.
    assert!(wrapper.contains("contractLo: 0x906F26FF,"), "{wrapper}");
    assert!(wrapper.contains("contractHi: 0x10E5E3B2,"), "{wrapper}");
    assert!(wrapper.contains("version: 0x00010000,"), "{wrapper}");
}

#[test]
fn own_pack_value_numbers_temporaries() {
    let ir: ValidatedIr = ir_with(
        vec![ResolvedType {
            name: "Two".to_owned(),
            fields: vec![
                field("a", ResolvedTypeRef::AbiType(AbiBuiltin::StringView)),
                field("b", ResolvedTypeRef::AbiType(AbiBuiltin::Buffer)),
            ],
        }],
        vec![],
    );
    let mut out: String = String::new();
    let mut idx: u32 = 3;
    emit_ts_caller_pack_value(&mut out, &named("Two"), "argsPtr", 0, "t", &ir, &mut idx).expect("pack");
    assert_eq!(idx, 5);
    assert!(out.contains("const _sv3Bytes = _ppEncodeUtf8(t.a);"), "{out}");
    assert!(out.contains("const _buf4DataBuf = _callerAlloc(t.b.length > 0 ? t.b.length : 1);"), "{out}");
    assert!(out.contains("polyplug.writeU32(argsPtr + 16, _buf4DataBuf[0]);"), "{out}");
}

#[test]
fn own_deno_types_and_marshalling() {
    let ir: ValidatedIr = ir_with(
        vec![ResolvedType {
            name: "P".to_owned(),
            fields: vec![field("a", prim(PrimitiveType::U8)), field("b", prim(PrimitiveType::I64))],
        }],
        vec![],
    );
    assert_eq!(deno_caller_ts_type(&named("P"), &ir).expect("ts"), "{ a: number; b: bigint }");
    let mut w: String = String::new();
    let mut k: u32 = 0;
    emit_deno_write_value(&mut w, &named("P"), "dv", 0, "x", &ir, &mut k).expect("write");
    assert_eq!(w, "        dv.setUint8(0, Number(x.a) & 0xFF);\n        dv.setBigInt64(8, BigInt(x.b), true);\n");
    let mut r: String = String::new();
    let mut j: u32 = 0;
    let local: String = emit_deno_read_local(&mut r, &named("P"), "dv", 0, &ir, &mut j, true).expect("read");
    assert_eq!(local, "_r0");
    assert_eq!(j, 3);
    assert!(r.ends_with("        const _r0 = { a: _r1, b: _r2 };\n"), "{r}");
}

#[test]
fn own_parse_lang_names_and_errors() {
    assert_eq!(parse_lang("c++").expect("cpp"), Lang::Cpp);
    assert_eq!(parse_lang("py").expect("py"), Lang::Python);
    assert_eq!(parse_lang("js-quickjs").expect("js"), Lang::JsQuickJs);
    match parse_lang("cobol") {
        Err(CodegenError::ValidationFailed { message }) => assert_eq!(
            message,
            "Unknown language: `cobol`. Supported: rust, cpp, csharp, python, lua, js-quickjs"
        ),
        other => panic!("unexpected: {other:?}"),
    }
}

#[test]
fn own_generate_files_dispatch() {
    let ir: ValidatedIr = ir_with(vec![], vec![]);
    match generate_files(&ir, Lang::Rust, Side::Host) {
        Err(CodegenError::UnsupportedLanguage { lang }) => assert_eq!(lang, "rust"),
        other => panic!("unexpected: {:?}", other.is_ok()),
    }
    match generate_files(&ir, Lang::Python, Side::Guest) {
        Err(CodegenError::ValidationFailed { message }) => {
            assert_eq!(message, "Python generator not yet implemented (planned for Epic 10)")
        }
        other => panic!("unexpected: {:?}", other.is_ok()),
    }
    let files = generate_files(&ir, Lang::JsQuickJs, Side::Host).expect("js host");
    let paths: Vec<String> = files.files.iter().map(|f| f.path.clone()).collect();
    assert_eq!(paths, vec!["host/types.ts".to_owned(), "host/callers.ts".to_owned()]);
    let guest = generate_files(&ir, Lang::Lua, Side::Guest).expect("lua guest");
    assert_eq!(guest.files[0].path, "guest/types.lua");
}

#[test]
fn own_write_decisions() {
    assert!(needs_write(true, Some("same"), "same"));
    assert!(!needs_write(false, Some("same"), "same"));
    assert!(needs_write(false, Some("old"), "new"));
    assert!(needs_write(false, None, "new"));
    let mut s: WriteSummary = WriteSummary::default();
    s.record(true);
    s.record(false);
    s.record(true);
    assert_eq!(s.written, 2);
    assert_eq!(s.unchanged, 1);
}

#[test]
fn own_sort_dedup_is_sorted_and_unique() {
    let v: Vec<String> = vec!["b".to_owned(), "a".to_owned(), "b".to_owned(), "C".to_owned()];
    assert_eq!(sort_dedup(v), vec!["C".to_owned(), "a".to_owned(), "b".to_owned()]);
}

#[test]
fn own_hex_encode_lowercase_two_digits_per_byte() {
    assert_eq!(hex_encode(&[]), "");
    assert_eq!(hex_encode(&[0x00, 0xab, 0x0f, 0xff, 0x10]), "00ab0fff10");
    let key: Vec<u8> = (0u8..32).collect();
    assert_eq!(hex_encode(&key).len(), 64);
    assert!(hex_encode(&key).starts_with("000102030405"));
}

#[test]
fn own_lang_name_parses_back() {
    for lang in [Lang::Rust, Lang::Cpp, Lang::CSharp, Lang::Python, Lang::Lua, Lang::JsQuickJs] {
        assert_eq!(parse_lang(&lang_name_of(lang)).expect("canonical name"), lang);
    }
    assert_eq!(lang_name_of(Lang::JsQuickJs), "js-quickjs");
}

#[test]
fn own_version_text_parses_back() {
    for v in [
        Version { major: 0, minor: 0, patch: 0 },
        Version { major: 4294967295, minor: 65535, patch: 65535 },
        Version { major: 12, minor: 3, patch: 40 },
    ] {
        let text = format!("{}.{}.{}", v.major, v.minor, v.patch);
        assert_eq!(Version::parse(&text).expect("manifest version"), v);
    }
}
