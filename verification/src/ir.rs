//! IR — intermediate representation types and validation.
//!
//! The IR is produced by the parser, validated (type resolution, contract IDs),
//! and then consumed by code generators.
use crate::error::CodegenError;
use crate::text::{chars_of, dec_digit, dec_digits, push_chars, push_u32, split_chars, split_seq, str_eq};
use vstd::utf8::encode_utf8;
use vstd::prelude::*;

verus! {

broadcast use vstd::string::group_string_axioms;

// ─── Version ────────────────────────────────────────────────────────────────

/// Semantic version with major.minor.patch components.
///
/// The major version is part of a contract's identity; the minor version
/// decides backward compatibility; the patch version is informational.
#[derive(Debug, Clone, Copy, PartialEq, Eq, Structural, PartialOrd, Ord)]
pub struct Version {
    pub major: u32,
    pub minor: u32,
    pub patch: u32,
}

/// Whether `c` is an ASCII decimal digit.
pub open spec fn is_digit(c: char) -> bool {
    '0' <= c && c <= '9'
}

/// The value of a run of decimal digits.
pub open spec fn digits_value(d: Seq<char>) -> nat
    decreases d.len(),
{
    if d.len() == 0 {
        0
    } else {
        digits_value(d.drop_last()) * 10 + ((d.last() as int) - 48) as nat
    }
}

/// Whether every character of `d` is a decimal digit.
pub open spec fn all_digits(d: Seq<char>) -> bool {
    forall|i: int| 0 <= i < d.len() ==> is_digit(#[trigger] d[i])
}

/// What `str::parse::<u32>` gives for `p`: an optional `+`, then at least one
/// decimal digit, with a value that fits in 32 bits.
pub open spec fn parse_u32_spec(p: Seq<char>) -> Option<u32> {
    let d = if p.len() > 0 && p[0] == '+' {
        p.drop_first()
    } else {
        p
    };
    if d.len() > 0 && all_digits(d) && digits_value(d) <= u32::MAX {
        Some(digits_value(d) as u32)
    } else {
        None
    }
}

/// Parses a decimal `u32` the way `str::parse::<u32>` does.
pub fn parse_u32_chars(p: &Vec<char>) -> (r: Option<u32>)
    ensures
        r == parse_u32_spec(p@),
{
    let n: usize = p.len();
    let mut start: usize = 0;
    if n > 0 && p[0] == '+' {
        start = 1;
    }
    let ghost d = if p@.len() > 0 && p@[0] == '+' {
        p@.drop_first()
    } else {
        p@
    };
    assert(d =~= p@.subrange(start as int, n as int));
    if start >= n {
        return None;
    }
    let mut val: u64 = 0;
    let mut over: bool = false;
    let mut i: usize = start;
    while i < n
        invariant
            n == p@.len(),
            start <= i <= n,
            d == p@.subrange(start as int, n as int),
            d == (if p@.len() > 0 && p@[0] == '+' { p@.drop_first() } else { p@ }),
            all_digits(p@.subrange(start as int, i as int)),
            !over ==> val == digits_value(p@.subrange(start as int, i as int)) && val <= u32::MAX,
            over ==> digits_value(p@.subrange(start as int, i as int)) > u32::MAX,
        decreases n - i,
    {
        let c: char = p[i];
        if !('0' <= c && c <= '9') {
            assert(d[i - start] == p@[i as int]);
            assert(!is_digit(d[i - start]));
            return None;
        }
        let ghost prev = p@.subrange(start as int, i as int);
        let ghost next = p@.subrange(start as int, i + 1);
        assert(next.drop_last() =~= prev);
        assert(next.last() == c);
        let dv: u64 = ((c as u32) - 48) as u64;
        if !over {
            let nv: u64 = val * 10 + dv;
            if nv > 4294967295 {
                over = true;
            } else {
                val = nv;
            }
        }
        i = i + 1;
    }
    if over {
        None
    } else {
        Some(val as u32)
    }
}

/// The `i`th dot-separated component of `s` as a number; a missing component counts as 0.
pub open spec fn component_value(s: Seq<char>, i: int) -> Option<u32> {
    let parts = split_seq(s, '.');
    if i < parts.len() {
        parse_u32_spec(parts[i])
    } else {
        Some(0u32)
    }
}

/// Index of the first of the three components that is not a number (3 if none).
pub open spec fn first_bad_component(s: Seq<char>) -> int {
    if component_value(s, 0) is None {
        0
    } else if component_value(s, 1) is None {
        1
    } else if component_value(s, 2) is None {
        2
    } else {
        3
    }
}

/// The message reported for a component `p` of `s` that is not a number.
pub open spec fn component_error_message(p: Seq<char>, s: Seq<char>) -> Seq<char> {
    "invalid version component `"@ + p + "` in `"@ + s + "`"@
}

/// The largest minor or patch number the ABI encoding can hold.
pub const U16_MAX: u32 = 65535;

fn parse_component(parts: &Vec<Vec<char>>, i: usize, s: &str) -> (r: Result<u32, CodegenError>)
    requires
        parts@.len() == split_seq(s@, '.').len(),
        forall|k: int| 0 <= k < parts@.len() ==> #[trigger] parts@[k]@ == split_seq(s@, '.')[k],
    ensures
        match r {
            Ok(v) => component_value(s@, i as int) == Some(v),
            Err(CodegenError::ValidationFailed { message }) => {
                &&& component_value(s@, i as int) is None
                &&& message@ == component_error_message(split_seq(s@, '.')[i as int], s@)
            },
            Err(_) => false,
        },
{
    if i >= parts.len() {
        return Ok(0);
    }
    match parse_u32_chars(&parts[i]) {
        Some(v) => Ok(v),
        None => {
            let mut message: String = String::new();
            message.append("invalid version component `");
            push_chars(&mut message, &parts[i]);
            message.append("` in `");
            message.append(s);
            message.append("`");
            Err(CodegenError::ValidationFailed { message })
        },
    }
}

impl Version {
    /// Parse "major.minor.patch", "major.minor" or "major"; missing components
    /// are 0, components past the third are ignored. Minor and patch must fit
    /// in 16 bits so that they can be encoded as `minor << 16 | patch`.
    pub fn parse(s: &str) -> (r: Result<Version, CodegenError>)
        ensures
            match r {
                Ok(v) => {
                    &&& component_value(s@, 0) == Some(v.major)
                    &&& component_value(s@, 1) == Some(v.minor)
                    &&& component_value(s@, 2) == Some(v.patch)
                    &&& v.minor <= U16_MAX
                    &&& v.patch <= U16_MAX
                },
                Err(CodegenError::ValidationFailed { message }) => {
                    let i = first_bad_component(s@);
                    &&& i < 3
                    &&& message@ == component_error_message(split_seq(s@, '.')[i], s@)
                },
                Err(CodegenError::VersionOverflow { component, value, version_str }) => {
                    &&& first_bad_component(s@) == 3
                    &&& version_str@ == s@
                    &&& if component_value(s@, 1)->0 > U16_MAX {
                        component@ == "minor"@ && value == component_value(s@, 1)->0
                    } else {
                        &&& component_value(s@, 2)->0 > U16_MAX
                        &&& component@ == "patch"@
                        &&& value == component_value(s@, 2)->0
                    }
                },
                Err(_) => false,
            },
            first_bad_component(s@) < 3 ==> r matches Err(CodegenError::ValidationFailed { .. }),
            first_bad_component(s@) == 3 && component_value(s@, 1)->0 <= U16_MAX
                && component_value(s@, 2)->0 <= U16_MAX ==> r is Ok,
    {
        let chars: Vec<char> = chars_of(s);
        let parts: Vec<Vec<char>> = split_chars(&chars, '.');
        let major: u32 = match parse_component(&parts, 0, s) {
            Ok(v) => v,
            Err(e) => {
                return Err(e);
            },
        };
        let minor: u32 = match parse_component(&parts, 1, s) {
            Ok(v) => v,
            Err(e) => {
                return Err(e);
            },
        };
        let patch: u32 = match parse_component(&parts, 2, s) {
            Ok(v) => v,
            Err(e) => {
                return Err(e);
            },
        };
        if minor > U16_MAX {
            return Err(
                CodegenError::VersionOverflow {
                    component: "minor".to_owned(),
                    value: minor,
                    version_str: s.to_owned(),
                },
            );
        }
        if patch > U16_MAX {
            return Err(
                CodegenError::VersionOverflow {
                    component: "patch".to_owned(),
                    value: patch,
                    version_str: s.to_owned(),
                },
            );
        }
        Ok(Version { major, minor, patch })
    }

    /// Encode minor.patch as `minor << 16 | patch` for ABI storage.
    pub fn minor_patch_encoded(&self) -> (r: u32)
        ensures
            r == ((self.minor << 16u32) | self.patch),
    {
        (self.minor << 16u32) | self.patch
    }
}

/// For a version that `Version::parse` accepts, the ABI encoding of minor and
/// patch loses nothing: both can be read back from it.
pub proof fn minor_patch_encoding_roundtrip(v: Version)
    requires
        v.minor <= U16_MAX,
        v.patch <= U16_MAX,
    ensures
        ((v.minor << 16u32) | v.patch) >> 16u32 == v.minor,
        ((v.minor << 16u32) | v.patch) & 0xFFFFu32 == v.patch,
{
    let mi: u32 = v.minor;
    let pa: u32 = v.patch;
    assert((((mi << 16u32) | pa) >> 16u32) == mi) by (bit_vector)
        requires
            mi <= 65535u32,
            pa <= 65535u32,
    ;
    assert((((mi << 16u32) | pa) & 0xFFFFu32) == pa) by (bit_vector)
        requires
            mi <= 65535u32,
            pa <= 65535u32,
    ;
}

/// `v` as `major.minor.patch` in decimal, as a bundle manifest writes it.
pub open spec fn version_text(v: Version) -> Seq<char> {
    dec_digits(v.major as nat) + "."@ + dec_digits(v.minor as nat) + "."@ + dec_digits(v.patch as nat)
}

pub(crate) proof fn lemma_dec_digits_parse(n: nat)
    ensures
        dec_digits(n).len() >= 1,
        all_digits(dec_digits(n)),
        digits_value(dec_digits(n)) == n,
    decreases n,
{
    let r: nat = n % 10;
    assert(dec_digit(r) as int == 48 + r);
    if n < 10 {
        assert(dec_digits(n).drop_last() =~= Seq::<char>::empty());
        assert(dec_digits(n).last() == dec_digit(r));
        assert(n % 10 == n);
        assert(digits_value(dec_digits(n)) == digits_value(dec_digits(n).drop_last()) * 10 + r);
    } else {
        lemma_dec_digits_parse(n / 10);
        let d = dec_digits(n);
        assert(d.drop_last() =~= dec_digits(n / 10));
        assert(d.last() == dec_digit(r));
        assert(digits_value(d) == digits_value(d.drop_last()) * 10 + r);
        assert((n / 10) * 10 + n % 10 == n) by (nonlinear_arith);
    }
}

proof fn lemma_parse_dec_digits(n: u32)
    ensures
        parse_u32_spec(dec_digits(n as nat)) == Some(n),
        !dec_digits(n as nat).contains('.'),
{
    lemma_dec_digits_parse(n as nat);
    let d = dec_digits(n as nat);
    assert(is_digit(d[0]));
    if d.contains('.') {
        let k = choose|k: int| 0 <= k < d.len() && d[k] == '.';
        assert(is_digit(d[k]));
    }
}

proof fn lemma_split_append_free(s: Seq<char>, t: Seq<char>, sep: char)
    requires
        !t.contains(sep),
    ensures
        split_seq(s + t, sep) == split_seq(s, sep).update(
            split_seq(s, sep).len() - 1,
            split_seq(s, sep).last() + t,
        ),
    decreases t.len(),
{
    crate::text::lemma_split_nonempty(s, sep);
    let ps = split_seq(s, sep);
    if t.len() == 0 {
        assert(s + t =~= s);
        assert(ps.last() + t =~= ps.last());
        assert(ps.update(ps.len() - 1, ps.last()) =~= ps);
    } else {
        let u = t.drop_last();
        assert(!u.contains(sep)) by {
            if u.contains(sep) {
                let k = choose|k: int| 0 <= k < u.len() && u[k] == sep;
                assert(t[k] == sep);
            }
        }
        lemma_split_append_free(s, u, sep);
        assert((s + t).drop_last() =~= s + u);
        assert((s + t).last() == t.last());
        assert(t.last() != sep) by {
            assert(t[t.len() - 1] == t.last());
        }
        let rest = split_seq(s + u, sep);
        assert(rest.last() == ps.last() + u);
        assert((ps.last() + u).push(t.last()) =~= ps.last() + t);
        assert(rest.update(rest.len() - 1, rest.last().push(t.last())) =~= ps.update(ps.len() - 1, ps.last() + t));
    }
}

proof fn lemma_split_push_sep(s: Seq<char>, sep: char)
    ensures
        split_seq(s + seq![sep], sep) == split_seq(s, sep).push(Seq::<char>::empty()),
{
    assert((s + seq![sep]).drop_last() =~= s);
    assert((s + seq![sep]).last() == sep);
}

/// The version text a bundle manifest writes reads back as the same version:
/// its three components are `v`'s numbers and none is malformed, so
/// `Version::parse` returns `Ok(v)` on it when minor and patch fit in 16 bits.
pub proof fn version_text_parses_back(v: Version)
    ensures
        component_value(version_text(v), 0) == Some(v.major),
        component_value(version_text(v), 1) == Some(v.minor),
        component_value(version_text(v), 2) == Some(v.patch),
        first_bad_component(version_text(v)) == 3,
{
    reveal_strlit(".");
    let a = dec_digits(v.major as nat);
    let b = dec_digits(v.minor as nat);
    let c = dec_digits(v.patch as nat);
    lemma_parse_dec_digits(v.major);
    lemma_parse_dec_digits(v.minor);
    lemma_parse_dec_digits(v.patch);
    let e = Seq::<char>::empty();
    let dot: Seq<char> = seq!['.'];
    assert("."@ =~= dot);
    lemma_split_append_free(e, a, '.');
    assert(e + a =~= a);
    assert(split_seq(e, '.') =~= seq![e]);
    assert(split_seq(a, '.') =~= seq![a]);
    lemma_split_push_sep(a, '.');
    lemma_split_append_free(a + dot, b, '.');
    assert(split_seq(a + dot + b, '.') =~= seq![a, b]);
    lemma_split_push_sep(a + dot + b, '.');
    lemma_split_append_free(a + dot + b + dot, c, '.');
    assert(split_seq(a + dot + b + dot + c, '.') =~= seq![a, b, c]);
    assert(version_text(v) == a + dot + b + dot + c);
}

// ─── Primitive and ABI types ────────────────────────────────────────────────

/// A scalar type of the ABI.
#[derive(Debug, Clone, Copy, PartialEq, Eq, Structural)]
pub enum PrimitiveType {
    U8,
    U16,
    U32,
    U64,
    I8,
    I16,
    I32,
    I64,
    F32,
    F64,
    Bool,
}

/// The primitive type named `s` in an API description, if any.
pub open spec fn primitive_named(s: Seq<char>) -> Option<PrimitiveType> {
    if s == "u8"@ {
        Some(PrimitiveType::U8)
    } else if s == "u16"@ {
        Some(PrimitiveType::U16)
    } else if s == "u32"@ {
        Some(PrimitiveType::U32)
    } else if s == "u64"@ {
        Some(PrimitiveType::U64)
    } else if s == "i8"@ {
        Some(PrimitiveType::I8)
    } else if s == "i16"@ {
        Some(PrimitiveType::I16)
    } else if s == "i32"@ {
        Some(PrimitiveType::I32)
    } else if s == "i64"@ {
        Some(PrimitiveType::I64)
    } else if s == "f32"@ {
        Some(PrimitiveType::F32)
    } else if s == "f64"@ {
        Some(PrimitiveType::F64)
    } else if s == "bool"@ {
        Some(PrimitiveType::Bool)
    } else {
        None
    }
}

/// The Rust spelling of a primitive type.
pub open spec fn primitive_rust_name(p: PrimitiveType) -> Seq<char> {
    match p {
        PrimitiveType::U8 => "u8"@,
        PrimitiveType::U16 => "u16"@,
        PrimitiveType::U32 => "u32"@,
        PrimitiveType::U64 => "u64"@,
        PrimitiveType::I8 => "i8"@,
        PrimitiveType::I16 => "i16"@,
        PrimitiveType::I32 => "i32"@,
        PrimitiveType::I64 => "i64"@,
        PrimitiveType::F32 => "f32"@,
        PrimitiveType::F64 => "f64"@,
        PrimitiveType::Bool => "bool"@,
    }
}

/// The C/C++ spelling of a primitive type.
pub open spec fn primitive_cpp_name(p: PrimitiveType) -> Seq<char> {
    match p {
        PrimitiveType::U8 => "uint8_t"@,
        PrimitiveType::U16 => "uint16_t"@,
        PrimitiveType::U32 => "uint32_t"@,
        PrimitiveType::U64 => "uint64_t"@,
        PrimitiveType::I8 => "int8_t"@,
        PrimitiveType::I16 => "int16_t"@,
        PrimitiveType::I32 => "int32_t"@,
        PrimitiveType::I64 => "int64_t"@,
        PrimitiveType::F32 => "float"@,
        PrimitiveType::F64 => "double"@,
        PrimitiveType::Bool => "bool"@,
    }
}

impl PrimitiveType {
    /// The primitive type named `s` ("u8", "i32", "bool", ...), if any.
    pub fn parse(s: &str) -> (r: Option<PrimitiveType>)
        ensures
            r == primitive_named(s@),
    {
        if str_eq(s, "u8") {
            Some(PrimitiveType::U8)
        } else if str_eq(s, "u16") {
            Some(PrimitiveType::U16)
        } else if str_eq(s, "u32") {
            Some(PrimitiveType::U32)
        } else if str_eq(s, "u64") {
            Some(PrimitiveType::U64)
        } else if str_eq(s, "i8") {
            Some(PrimitiveType::I8)
        } else if str_eq(s, "i16") {
            Some(PrimitiveType::I16)
        } else if str_eq(s, "i32") {
            Some(PrimitiveType::I32)
        } else if str_eq(s, "i64") {
            Some(PrimitiveType::I64)
        } else if str_eq(s, "f32") {
            Some(PrimitiveType::F32)
        } else if str_eq(s, "f64") {
            Some(PrimitiveType::F64)
        } else if str_eq(s, "bool") {
            Some(PrimitiveType::Bool)
        } else {
            None
        }
    }

    /// Rust type name.
    pub fn rust_name(&self) -> (r: &'static str)
        ensures
            r@ == primitive_rust_name(*self),
    {
        match self {
            PrimitiveType::U8 => "u8",
            PrimitiveType::U16 => "u16",
            PrimitiveType::U32 => "u32",
            PrimitiveType::U64 => "u64",
            PrimitiveType::I8 => "i8",
            PrimitiveType::I16 => "i16",
            PrimitiveType::I32 => "i32",
            PrimitiveType::I64 => "i64",
            PrimitiveType::F32 => "f32",
            PrimitiveType::F64 => "f64",
            PrimitiveType::Bool => "bool",
        }
    }

    /// C/C++ type name.
    pub fn cpp_name(&self) -> (r: &'static str)
        ensures
            r@ == primitive_cpp_name(*self),
    {
        match self {
            PrimitiveType::U8 => "uint8_t",
            PrimitiveType::U16 => "uint16_t",
            PrimitiveType::U32 => "uint32_t",
            PrimitiveType::U64 => "uint64_t",
            PrimitiveType::I8 => "int8_t",
            PrimitiveType::I16 => "int16_t",
            PrimitiveType::I32 => "int32_t",
            PrimitiveType::I64 => "int64_t",
            PrimitiveType::F32 => "float",
            PrimitiveType::F64 => "double",
            PrimitiveType::Bool => "bool",
        }
    }
}

/// Parsing the Rust name of a primitive type gives that type back.
pub proof fn primitive_name_roundtrip(p: PrimitiveType)
    ensures
        primitive_named(primitive_rust_name(p)) == Some(p),
{
    reveal_strlit("u8");
    assert("u8"@ =~= seq!['u', '8']);
    reveal_strlit("u16");
    assert("u16"@ =~= seq!['u', '1', '6']);
    reveal_strlit("u32");
    assert("u32"@ =~= seq!['u', '3', '2']);
    reveal_strlit("u64");
    assert("u64"@ =~= seq!['u', '6', '4']);
    reveal_strlit("i8");
    assert("i8"@ =~= seq!['i', '8']);
    reveal_strlit("i16");
    assert("i16"@ =~= seq!['i', '1', '6']);
    reveal_strlit("i32");
    assert("i32"@ =~= seq!['i', '3', '2']);
    reveal_strlit("i64");
    assert("i64"@ =~= seq!['i', '6', '4']);
    reveal_strlit("f32");
    assert("f32"@ =~= seq!['f', '3', '2']);
    reveal_strlit("f64");
    assert("f64"@ =~= seq!['f', '6', '4']);
    reveal_strlit("bool");
    assert("bool"@ =~= seq!['b', 'o', 'o', 'l']);
}

/// A builtin type of the ABI.
#[derive(Debug, Clone, Copy, PartialEq, Eq, Structural)]
pub enum AbiBuiltin {
    StringView,
    Buffer,
    Ptr,
    Void,
}

/// The ABI builtin named `s`, if any (`ptr` and `void` in either case of their first letter).
pub open spec fn abi_builtin_named(s: Seq<char>) -> Option<AbiBuiltin> {
    if s == "StringView"@ {
        Some(AbiBuiltin::StringView)
    } else if s == "Buffer"@ {
        Some(AbiBuiltin::Buffer)
    } else if s == "ptr"@ || s == "Ptr"@ {
        Some(AbiBuiltin::Ptr)
    } else if s == "void"@ || s == "Void"@ {
        Some(AbiBuiltin::Void)
    } else {
        None
    }
}

impl AbiBuiltin {
    /// The ABI builtin named `s`, if any.
    pub fn parse(s: &str) -> (r: Option<AbiBuiltin>)
        ensures
            r == abi_builtin_named(s@),
    {
        if str_eq(s, "StringView") {
            Some(AbiBuiltin::StringView)
        } else if str_eq(s, "Buffer") {
            Some(AbiBuiltin::Buffer)
        } else if str_eq(s, "ptr") || str_eq(s, "Ptr") {
            Some(AbiBuiltin::Ptr)
        } else if str_eq(s, "void") || str_eq(s, "Void") {
            Some(AbiBuiltin::Void)
        } else {
            None
        }
    }
}

// ─── Resolved type references ───────────────────────────────────────────────

/// A resolved type reference.
#[derive(Debug, Clone)]
pub enum ResolvedTypeRef {
    Primitive(PrimitiveType),
    AbiType(AbiBuiltin),
    /// User-defined struct or enum name (from api.toml).
    UserDefined(String),
}

// ─── Enum IR ────────────────────────────────────────────────────────────────

/// Repr type for an enum — the ABI-level integer type.
#[derive(Debug, Clone, Copy, PartialEq, Eq, Structural)]
pub enum ReprType {
    U8,
    U16,
    U32,
    U64,
}

/// The repr named `s`, if any.
pub open spec fn repr_named(s: Seq<char>) -> Option<ReprType> {
    if s == "u8"@ {
        Some(ReprType::U8)
    } else if s == "u16"@ {
        Some(ReprType::U16)
    } else if s == "u32"@ {
        Some(ReprType::U32)
    } else if s == "u64"@ {
        Some(ReprType::U64)
    } else {
        None
    }
}

/// The Rust spelling of a repr.
pub open spec fn repr_rust_name(r: ReprType) -> Seq<char> {
    match r {
        ReprType::U8 => "u8"@,
        ReprType::U16 => "u16"@,
        ReprType::U32 => "u32"@,
        ReprType::U64 => "u64"@,
    }
}

/// The C/C++ spelling of a repr.
pub open spec fn repr_cpp_name(r: ReprType) -> Seq<char> {
    match r {
        ReprType::U8 => "uint8_t"@,
        ReprType::U16 => "uint16_t"@,
        ReprType::U32 => "uint32_t"@,
        ReprType::U64 => "uint64_t"@,
    }
}

/// The C# spelling of a repr.
pub open spec fn repr_cs_name(r: ReprType) -> Seq<char> {
    match r {
        ReprType::U8 => "byte"@,
        ReprType::U16 => "ushort"@,
        ReprType::U32 => "uint"@,
        ReprType::U64 => "ulong"@,
    }
}

impl ReprType {
    /// Parse "u8" | "u16" | "u32" | "u64".
    pub fn parse(s: &str) -> (r: Option<ReprType>)
        ensures
            r == repr_named(s@),
    {
        if str_eq(s, "u8") {
            Some(ReprType::U8)
        } else if str_eq(s, "u16") {
            Some(ReprType::U16)
        } else if str_eq(s, "u32") {
            Some(ReprType::U32)
        } else if str_eq(s, "u64") {
            Some(ReprType::U64)
        } else {
            None
        }
    }

    /// The Rust type name for this repr.
    pub fn rust_name(&self) -> (r: &'static str)
        ensures
            r@ == repr_rust_name(*self),
    {
        match self {
            ReprType::U8 => "u8",
            ReprType::U16 => "u16",
            ReprType::U32 => "u32",
            ReprType::U64 => "u64",
        }
    }

    /// The C/C++ type name for this repr.
    pub fn cpp_name(&self) -> (r: &'static str)
        ensures
            r@ == repr_cpp_name(*self),
    {
        match self {
            ReprType::U8 => "uint8_t",
            ReprType::U16 => "uint16_t",
            ReprType::U32 => "uint32_t",
            ReprType::U64 => "uint64_t",
        }
    }

    /// The C# type name for this repr.
    pub fn cs_name(&self) -> (r: &'static str)
        ensures
            r@ == repr_cs_name(*self),
    {
        match self {
            ReprType::U8 => "byte",
            ReprType::U16 => "ushort",
            ReprType::U32 => "uint",
            ReprType::U64 => "ulong",
        }
    }
}

/// Parsing the Rust name of a repr gives that repr back.
pub proof fn repr_name_roundtrip(r: ReprType)
    ensures
        repr_named(repr_rust_name(r)) == Some(r),
{
    reveal_strlit("u8");
    assert("u8"@ =~= seq!['u', '8']);
    reveal_strlit("u16");
    assert("u16"@ =~= seq!['u', '1', '6']);
    reveal_strlit("u32");
    assert("u32"@ =~= seq!['u', '3', '2']);
    reveal_strlit("u64");
    assert("u64"@ =~= seq!['u', '6', '4']);
    reveal_strlit("i8");
    assert("i8"@ =~= seq!['i', '8']);
    reveal_strlit("i16");
    assert("i16"@ =~= seq!['i', '1', '6']);
    reveal_strlit("i32");
    assert("i32"@ =~= seq!['i', '3', '2']);
    reveal_strlit("i64");
    assert("i64"@ =~= seq!['i', '6', '4']);
    reveal_strlit("f32");
    assert("f32"@ =~= seq!['f', '3', '2']);
    reveal_strlit("f64");
    assert("f64"@ =~= seq!['f', '6', '4']);
    reveal_strlit("bool");
    assert("bool"@ =~= seq!['b', 'o', 'o', 'l']);
}

/// A repr and the primitive type of the same name share their C/C++ spelling.
pub proof fn repr_and_primitive_agree(r: ReprType)
    ensures
        primitive_named(repr_rust_name(r)) matches Some(p) && primitive_cpp_name(p) == repr_cpp_name(r),
{
    reveal_strlit("u8");
    assert("u8"@ =~= seq!['u', '8']);
    reveal_strlit("u16");
    assert("u16"@ =~= seq!['u', '1', '6']);
    reveal_strlit("u32");
    assert("u32"@ =~= seq!['u', '3', '2']);
    reveal_strlit("u64");
    assert("u64"@ =~= seq!['u', '6', '4']);
    reveal_strlit("i8");
    assert("i8"@ =~= seq!['i', '8']);
    reveal_strlit("i16");
    assert("i16"@ =~= seq!['i', '1', '6']);
    reveal_strlit("i32");
    assert("i32"@ =~= seq!['i', '3', '2']);
    reveal_strlit("i64");
    assert("i64"@ =~= seq!['i', '6', '4']);
    reveal_strlit("f32");
    assert("f32"@ =~= seq!['f', '3', '2']);
    reveal_strlit("f64");
    assert("f64"@ =~= seq!['f', '6', '4']);
    reveal_strlit("bool");
    assert("bool"@ =~= seq!['b', 'o', 'o', 'l']);
}

/// A validated enum variant.
#[derive(Debug, Clone)]
pub struct EnumVariant {
    pub name: String,
    /// Validated expression string, stored verbatim for codegen.
    pub value: String,
}

/// A fully validated enum definition.
#[derive(Debug)]
pub struct EnumDef {
    pub name: String,
    pub repr: ReprType,
    pub bitflag: bool,
    pub variants: Vec<EnumVariant>,
}

// ─── IR structs ─────────────────────────────────────────────────────────────

/// A resolved user-defined flat struct.
#[derive(Debug)]
pub struct ResolvedType {
    pub name: String,
    pub fields: Vec<ResolvedField>,
}

#[derive(Debug)]
pub struct ResolvedField {
    pub name: String,
    pub ty: ResolvedTypeRef,
}

/// A resolved function parameter.
#[derive(Debug)]
pub struct ResolvedParam {
    pub name: String,
    pub ty: ResolvedTypeRef,
}

#[derive(Debug)]
pub struct ResolvedFunction {
    pub name: String,
    /// Sequential index matching declaration order.
    pub function_id: u32,
    pub params: Vec<ResolvedParam>,
    pub returns: Option<ResolvedTypeRef>,
}

#[derive(Debug)]
pub struct ResolvedContract {
    pub name: String,
    /// Precomputed FNV-1a hash of "guest_contract:name@major".
    pub contract_id: u64,
    pub version: Version,
    pub functions: Vec<ResolvedFunction>,
}

/// A resolved host contract definition: an API the host provides to plugins.
#[derive(Debug)]
pub struct ResolvedHostContract {
    pub name: String,
    /// Precomputed FNV-1a hash of "host_contract:name@major".
    pub contract_id: u64,
    pub version: Version,
    /// Whether `get_host_contract` returns the same instance for all callers.
    pub singleton: bool,
    pub functions: Vec<ResolvedFunction>,
}

#[derive(Debug)]
pub struct ResolvedPlugin {
    pub name: String,
    pub version: Version,
    pub implements: Vec<String>,
    pub optional: Vec<String>,
}

/// One platform-specific entry of a bundle's file table.
#[derive(Debug, Clone)]
pub struct PlatformFile {
    pub os: String,
    pub arch: String,
    pub path: String,
}

/// Where a bundle's entry artifact lives: one path, or one per platform.
#[derive(Debug, Clone)]
pub enum ResolvedBundleFile {
    Single(String),
    PlatformMap(Vec<PlatformFile>),
}

#[derive(Debug)]
pub struct ResolvedBundle {
    pub name: String,
    pub version: Version,
    pub loader: String,
    pub runtime: String,
    pub file: ResolvedBundleFile,
    pub plugins: Vec<ResolvedPlugin>,
    pub bundle_id: u64,
    pub dependencies: Vec<ResolvedDependency>,
    pub needs_reinit_on_dep_reload: bool,
}

/// A resolved bundle dependency — either by contract (any provider) or by
/// bundle (specific provider).
#[derive(Debug, Clone)]
pub enum ResolvedDependency {
    ByContract { contract: String, contract_id: u64, min_version: u32 },
    ByBundle {
        bundle: String,
        bundle_id: u64,
        contract: String,
        contract_id: u64,
        min_version: u32,
    },
}

/// The fully validated IR, ready for code generation.
#[derive(Debug)]
pub struct ValidatedIr {
    pub types: Vec<ResolvedType>,
    pub enums: Vec<EnumDef>,
    pub contracts: Vec<ResolvedContract>,
    pub host_contracts: Vec<ResolvedHostContract>,
    pub bundle: Option<ResolvedBundle>,
}

// ─── Type resolution ────────────────────────────────────────────────────────

/// Whether `name` is one of `known`.
pub open spec fn is_known_type(known: Seq<String>, name: Seq<char>) -> bool {
    exists|i: int| 0 <= i < known.len() && (#[trigger] known[i])@ == name
}

/// Resolve a type string to a `ResolvedTypeRef`: primitives first, then ABI
/// builtins, then the declared types; anything else is an unknown type.
pub fn resolve_type_ref(type_str: &str, contract: &str, known_types: &[String]) -> (r: Result<
    ResolvedTypeRef,
    CodegenError,
>)
    ensures
        match r {
            Ok(ResolvedTypeRef::Primitive(p)) => primitive_named(type_str@) == Some(p),
            Ok(ResolvedTypeRef::AbiType(b)) => {
                &&& primitive_named(type_str@) is None
                &&& abi_builtin_named(type_str@) == Some(b)
            },
            Ok(ResolvedTypeRef::UserDefined(n)) => {
                &&& primitive_named(type_str@) is None
                &&& abi_builtin_named(type_str@) is None
                &&& is_known_type(known_types@, type_str@)
                &&& n@ == type_str@
            },
            Err(CodegenError::UnknownType { type_ref, contract: c }) => {
                &&& primitive_named(type_str@) is None
                &&& abi_builtin_named(type_str@) is None
                &&& !is_known_type(known_types@, type_str@)
                &&& type_ref@ == type_str@
                &&& c@ == contract@
            },
            Err(_) => false,
        },
{
    if let Some(p) = PrimitiveType::parse(type_str) {
        return Ok(ResolvedTypeRef::Primitive(p));
    }
    if let Some(b) = AbiBuiltin::parse(type_str) {
        return Ok(ResolvedTypeRef::AbiType(b));
    }
    let mut i: usize = 0;
    while i < known_types.len()
        invariant
            primitive_named(type_str@) is None,
            abi_builtin_named(type_str@) is None,
            i <= known_types@.len(),
            forall|k: int| 0 <= k < i ==> (#[trigger] known_types@[k])@ != type_str@,
        decreases known_types@.len() - i,
    {
        if str_eq(known_types[i].as_str(), type_str) {
            assert((known_types@[i as int])@ == type_str@);
            return Ok(ResolvedTypeRef::UserDefined(type_str.to_owned()));
        }
        i = i + 1;
    }
    Err(CodegenError::UnknownType { type_ref: type_str.to_owned(), contract: contract.to_owned() })
}


// ─── Contract and bundle ids ────────────────────────────────────────────────

/// The 64-bit FNV-1a offset basis.
pub const FNV_OFFSET_BASIS: u64 = 0xcbf2_9ce4_8422_2325;

/// The 64-bit FNV-1a prime.
pub const FNV_PRIME: u64 = 0x0000_0100_0000_01b3;

/// 64-bit FNV-1a of `bytes`: starting from the offset basis, each byte is
/// xored in and the state multiplied by the prime, modulo 2^64.
pub open spec fn fnv1a(bytes: Seq<u8>) -> u64
    decreases bytes.len(),
{
    if bytes.len() == 0 {
        FNV_OFFSET_BASIS
    } else {
        (fnv1a(bytes.drop_last()) ^ (bytes.last() as u64)).wrapping_mul(FNV_PRIME)
    }
}

/// 64-bit FNV-1a of `bytes`.
pub fn fnv1a_bytes(bytes: &[u8]) -> (r: u64)
    ensures
        r == fnv1a(bytes@),
{
    let mut h: u64 = FNV_OFFSET_BASIS;
    let mut i: usize = 0;
    while i < bytes.len()
        invariant
            i <= bytes@.len(),
            h == fnv1a(bytes@.take(i as int)),
        decreases bytes@.len() - i,
    {
        assert(bytes@.take(i + 1).drop_last() =~= bytes@.take(i as int));
        h = (h ^ (bytes[i] as u64)).wrapping_mul(FNV_PRIME);
        i = i + 1;
    }
    assert(bytes@.take(bytes@.len() as int) =~= bytes@);
    h
}

/// The text a guest contract's id is hashed from: `guest_contract:<name>@<major>`.
pub open spec fn guest_contract_key(name: Seq<char>, major: u32) -> Seq<char> {
    "guest_contract:"@ + name + "@"@ + dec_digits(major as nat)
}

/// The id of guest contract `name` at major version `major`: FNV-1a of the
/// UTF-8 bytes of its key.
pub open spec fn guest_contract_id_of(name: Seq<char>, major: u32) -> u64 {
    fnv1a(encode_utf8(guest_contract_key(name, major)))
}

/// The id of guest contract `name` at major version `major`.
pub fn guest_contract_id(name: &str, major: u32) -> (r: u64)
    ensures
        r == guest_contract_id_of(name@, major),
{
    let mut key: String = "guest_contract:".to_owned();
    key.append(name);
    key.append("@");
    push_u32(&mut key, major);
    fnv1a_bytes(key.as_str().as_bytes())
}

/// The id of bundle `name`: FNV-1a of its UTF-8 bytes.
pub fn bundle_id(name: &str) -> (r: u64)
    ensures
        r == fnv1a(encode_utf8(name@)),
{
    fnv1a_bytes(name.as_bytes())
}

} // verus!
