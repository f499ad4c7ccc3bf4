use polyplugc::error::CodegenError;
use polyplugc::ir::{bundle_id, guest_contract_id, resolve_type_ref, PrimitiveType, ReprType, ResolvedTypeRef, Version};

#[test]
fn ir_version_parse() {
    let v: Version = Version::parse("1.2.3").expect("parse");
    assert_eq!(
        v,
        Version {
            major: 1,
            minor: 2,
            patch: 3
        }
    );
}

#[test]
fn version_parse_minor_overflow_returns_error() {
    let result: Result<Version, CodegenError> = Version::parse("1.65536.0");
    assert!(result.is_err());
    let err: CodegenError = result.expect_err("should error on minor overflow");
    assert!(matches!(err, CodegenError::VersionOverflow { component, .. } if component == "minor"));
}

#[test]
fn version_parse_patch_overflow_returns_error() {
    let result: Result<Version, CodegenError> = Version::parse("1.0.65536");
    assert!(result.is_err());
    let err: CodegenError = result.expect_err("should error on patch overflow");
    assert!(matches!(err, CodegenError::VersionOverflow { component, .. } if component == "patch"));
}

#[test]
fn version_parse_max_valid_minor_patch() {
    let v: Version = Version::parse("1.65535.65535").expect("parse max valid");
    assert_eq!(v.major, 1);
    assert_eq!(v.minor, 65535);
    assert_eq!(v.patch, 65535);
}

#[test]
fn ir_primitive_type_roundtrip() {
    let t: PrimitiveType = PrimitiveType::parse("u32").expect("parse u32");
    assert_eq!(t.rust_name(), "u32");
    assert_eq!(t.cpp_name(), "uint32_t");
}

#[test]
fn ir_resolve_type_ref_primitive() {
    let t: ResolvedTypeRef = resolve_type_ref("u64", "my.contract", &[]).expect("resolve u64");
    assert!(matches!(t, ResolvedTypeRef::Primitive(PrimitiveType::U64)));
}

#[test]
fn ir_resolve_type_ref_unknown() {
    let result: Result<ResolvedTypeRef, _> = resolve_type_ref("MyUnknownType", "my.contract", &[]);
    assert!(result.is_err());
}

#[test]
fn repr_type_parse_roundtrip() {
    let r: ReprType = ReprType::parse("u32").expect("parse u32");
    assert_eq!(r.rust_name(), "u32");
    assert_eq!(r.cpp_name(), "uint32_t");
    assert_eq!(r.cs_name(), "uint");
}

#[test]
fn repr_type_parse_u64() {
    let r: Option<ReprType> = ReprType::parse("u64");
    assert!(matches!(r, Some(ReprType::U64)));
}

#[test]
fn repr_type_parse_invalid() {
    let r: Option<ReprType> = ReprType::parse("i32");
    assert!(r.is_none());
}

#[test]
fn mod_version_parse() {
    let v: Version = Version::parse("1.2.3").expect("parse");
    assert_eq!(
        v,
        Version {
            major: 1,
            minor: 2,
            patch: 3
        }
    );
}

#[test]
fn version_minor_patch_encoded() {
    let v: Version = Version {
        major: 1,
        minor: 3,
        patch: 5,
    };
    assert_eq!(v.minor_patch_encoded(), (3 << 16) | 5);
}

#[test]
fn mod_primitive_type_roundtrip() {
    let t: PrimitiveType = PrimitiveType::parse("u32").expect("parse u32");
    assert_eq!(t.rust_name(), "u32");
    assert_eq!(t.cpp_name(), "uint32_t");
}

#[test]
fn mod_resolve_type_ref_primitive() {
    let t: ResolvedTypeRef = resolve_type_ref("u64", "my.contract", &[]).expect("resolve u64");
    assert!(matches!(t, ResolvedTypeRef::Primitive(PrimitiveType::U64)));
}

#[test]
fn mod_resolve_type_ref_unknown() {
    let result: Result<ResolvedTypeRef, _> = resolve_type_ref("MyUnknownType", "my.contract", &[]);
    assert!(result.is_err());
}

#[test]
fn ir_contract_id_uses_fnv1a() {
    let id1: u64 = guest_contract_id("image.decode", 1);
    let id2: u64 = guest_contract_id("image.decode", 1);
    assert_eq!(id1, id2);
    assert_ne!(guest_contract_id("image.decode", 1), guest_contract_id("image.decode", 2));
}

#[test]
fn contract_id_golden_values() {
    // Golden values for "guest_contract:name@version" FNV-1a hash
    assert_eq!(guest_contract_id("image.decode", 1), 18154885241241252316_u64);
    assert_eq!(guest_contract_id("audio.encode", 2), 6632138859905976100_u64);
}

#[test]
fn codegen_contract_id_deterministic() {
    let id1: u64 = guest_contract_id("image.decode", 1);
    let id2: u64 = guest_contract_id("image.decode", 1);
    assert_eq!(id1, id2);
}

#[test]
fn bundle_id_uses_fnv1a() {
    let id: u64 = bundle_id("test-bundle");
    assert_ne!(id, 0);
    assert_eq!(id, bundle_id("test-bundle"));
    assert_ne!(bundle_id("bundle-a"), bundle_id("bundle-b"));
}

#[test]
fn bundle_id_golden_values() {
    assert_eq!(bundle_id("my-bundle"), 0xfe6226876e3a35b2_u64);
    assert_eq!(bundle_id("polyplug-core"), 0x6ef4aee714f5f991_u64);
}

#[test]
fn codegen_bundle_id_deterministic() {
    let id1: u64 = bundle_id("my-bundle");
    let id2: u64 = bundle_id("my-bundle");
    assert_eq!(id1, id2);
}
