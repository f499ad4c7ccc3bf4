use polyplugc::generators::cpp::substitute_variant_refs_cpp;
use polyplugc::generators::enum_values::lua_transform_value_expr;
use polyplugc::generators::is_native_runtime;
use polyplugc::generators::lua::substitute_variant_refs_lua;
use polyplugc::ir::EnumVariant;
use polyplugc::text::capitalise_first;

fn variant(name: &str, value: &str) -> EnumVariant {
    EnumVariant { name: name.to_owned(), value: value.to_owned() }
}

#[test]
fn own_capitalise_first_uses_unicode_uppercase() {
    assert_eq!(capitalise_first("image"), "Image");
    assert_eq!(capitalise_first("éclair"), "Éclair");
    assert_eq!(capitalise_first("ßeta"), "SSeta");
    assert_eq!(capitalise_first(""), "");
}

#[test]
fn own_native_runtime_ignores_case() {
    assert!(is_native_runtime("native"));
    assert!(is_native_runtime("NATIVE"));
    assert!(is_native_runtime("Native"));
    assert!(!is_native_runtime("lua"));
    assert!(!is_native_runtime("native "));
}

#[test]
fn own_cpp_variant_refs_follow_unicode_identifiers() {
    let vars = vec![variant("A", "1"), variant("B", "2"), variant("Ünï", "4")];
    assert_eq!(
        substitute_variant_refs_cpp(&vars, "A | B | Ünï | C_9", "Flags", "uint8_t"),
        "static_cast<uint8_t>(Flags::A) | static_cast<uint8_t>(Flags::B) | static_cast<uint8_t>(Flags::Ünï) | C_9"
    );
    assert_eq!(substitute_variant_refs_cpp(&vars, "AB|(A)", "F", "uint32_t"), "AB|(static_cast<uint32_t>(F::A))");
}

#[test]
fn own_lua_variant_refs_and_bit_ops() {
    let vars = vec![variant("A", "1"), variant("B", "A << 1")];
    assert_eq!(substitute_variant_refs_lua(&vars, "B | 4"), "(A << 1) | 4");
    let chars = |s: &str| s.chars().collect::<Vec<char>>();
    assert_eq!(lua_transform_value_expr(&chars("  (1 << 2) | ~3  ")), "bit.bor(bit.lshift(1, 2), bit.bnot(3))");
    assert_eq!(lua_transform_value_expr(&chars("\t1 << 2\n")), "bit.lshift(1, 2)");
    assert_eq!(lua_transform_value_expr(&chars("1 | 2 | 4")), "bit.bor(bit.bor(1, 2), 4)");
    assert_eq!(lua_transform_value_expr(&chars("((7))")), "7");
}

#[test]
fn own_trim_uses_unicode_white_space() {
    let chars = |s: &str| s.chars().collect::<Vec<char>>();
    for w in ['\t', '\n', '\u{b}', '\u{c}', '\r', ' ', '\u{85}', '\u{a0}', '\u{1680}', '\u{2000}', '\u{200a}', '\u{2028}', '\u{2029}', '\u{202f}', '\u{205f}', '\u{3000}'] {
        assert!(w.is_whitespace());
        let e: String = [w, '7', w].iter().collect();
        assert_eq!(lua_transform_value_expr(&chars(&e)), "7", "{:?}", w);
    }
    let zw: String = ['\u{200b}', '7'].iter().collect();
    assert_eq!(lua_transform_value_expr(&chars(&zw)), zw);
}
