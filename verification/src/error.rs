//! Errors reported while turning an API description into generated code.
use vstd::prelude::*;

verus! {

/// Why code generation or IR validation failed.
#[derive(Debug, Clone)]
pub enum CodegenError {
    /// A type name that is neither a primitive, an ABI builtin nor a declared type.
    UnknownType { type_ref: String, contract: String },
    /// A type the target language cannot express.
    UnsupportedType { ty: String, lang: String },
    /// A language the pack command does not support.
    UnsupportedLanguage { lang: String },
    /// A malformed input, with a human-readable reason.
    ValidationFailed { message: String },
    /// A minor or patch version component that does not fit in 16 bits.
    VersionOverflow { component: String, value: u32, version_str: String },
    /// A bundle named like one of the contracts.
    BundleNameConflict { bundle_name: String },
    /// An enum repr other than u8, u16, u32 or u64.
    EnumInvalidRepr { enum_name: String, repr: String },
    /// A value expression with a token that is not allowed.
    EnumInvalidValueExpr { enum_name: String, variant_name: String, expr: String },
    /// A value expression that names a later variant.
    EnumForwardRef { enum_name: String, variant_name: String, ref_name: String },
    /// A value expression that names a variant whose own value names another.
    EnumChainedRef { enum_name: String, variant_name: String, ref_name: String },
    /// A name used by both a struct type and an enum.
    EnumNameCollision { name: String },
}

} // verus!
