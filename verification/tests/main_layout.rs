use polyplugc::output::{import_is_valid, lang_name_of, output_destination, output_layout, Lang, OutputDestination, PartitionOutputArgs};
use polyplugc::error::CodegenError;

fn args(out: Option<&str>, import: Option<&str>, omit: bool) -> PartitionOutputArgs {
    PartitionOutputArgs { out: out.map(|s| s.to_owned()), import: import.map(|s| s.to_owned()), omit }
}

#[test]
fn output_layout_routes_emit_import_only_and_omit_for_every_language() {
    let cases: [(Lang, &str, &str); 6] = [
        (Lang::Rust, "shared::domain", "shared::guest_contracts"),
        (Lang::Cpp, "guest/domain.hpp", "guest/guest_contracts.hpp"),
        (Lang::CSharp, "Shared.Domain", "Shared.GuestContracts"),
        (Lang::Python, "shared.domain", "shared.guest_contracts"),
        (Lang::Lua, "shared.domain", "shared.guest_contracts"),
        (Lang::JsQuickJs, "@test/javascript-domain", "@test/javascript-contracts"),
    ];

    for (language, domain_import, guest_contracts_import) in cases {
        let emitted = output_layout(
            language,
            args(Some("domain"), Some(domain_import), false),
            args(Some("guest_contracts"), Some(guest_contracts_import), false),
        )
        .unwrap_or_else(|error| panic!("valid {} emitted layout: {error:?}", lang_name_of(language)));
        assert!(matches!(emitted.domain_types, OutputDestination::Emit { .. }));
        assert!(matches!(emitted.guest_contracts, OutputDestination::Emit { .. }));

        let imported = output_layout(
            language,
            args(None, Some(domain_import), false),
            args(None, Some(guest_contracts_import), false),
        )
        .unwrap_or_else(|error| panic!("valid {} import-only layout: {error:?}", lang_name_of(language)));
        assert!(matches!(imported.domain_types, OutputDestination::ImportOnly { .. }));
        assert!(matches!(imported.guest_contracts, OutputDestination::ImportOnly { .. }));

        let omitted = output_layout(language, args(None, None, true), args(None, None, true))
            .unwrap_or_else(|error| panic!("valid {} omitted layout: {error:?}", lang_name_of(language)));
        assert!(matches!(omitted.domain_types, OutputDestination::Omit));
        assert!(matches!(omitted.guest_contracts, OutputDestination::Omit));

        assert!(
            output_layout(language, args(Some("domain"), None, false), args(None, None, false)).is_err(),
            "{} output roots must require imports",
            lang_name_of(language)
        );
        assert!(
            output_layout(language, args(None, Some("../outside"), false), args(None, None, false)).is_err(),
            "{} must reject invalid imports",
            lang_name_of(language)
        );
    }
}

#[test]
fn own_output_destination_values_and_messages() {
    assert_eq!(
        output_destination(Lang::Rust, "--domain-types-out", args(Some("d"), Some("m::d"), false)).expect("emit"),
        OutputDestination::Emit { root: "d".to_owned(), import: "m::d".to_owned() }
    );
    assert_eq!(
        output_destination(Lang::Rust, "--domain-types-out", args(None, Some("m::d"), false)).expect("import"),
        OutputDestination::ImportOnly { import: "m::d".to_owned() }
    );
    assert_eq!(output_destination(Lang::Lua, "--x", args(None, None, false)).expect("inline"), OutputDestination::Inline);
    match output_destination(Lang::Lua, "--guest-contracts-out", args(None, Some("m"), true)) {
        Err(CodegenError::ValidationFailed { message }) => {
            assert_eq!(message, "--guest-contracts-out cannot be combined with its omit flag")
        }
        other => panic!("unexpected {other:?}"),
    }
    match output_layout(Lang::Cpp, args(None, None, false), args(Some("g"), None, false)) {
        Err(CodegenError::ValidationFailed { message }) => {
            assert_eq!(message, "--guest-contracts-out requires its matching import flag")
        }
        other => panic!("unexpected {other:?}"),
    }
    let layout = output_layout(Lang::Cpp, args(None, None, false), args(None, None, false)).expect("inline");
    assert_eq!(layout.bindings, OutputDestination::Inline);
    assert_eq!(layout.domain_types, OutputDestination::Inline);
}

#[test]
fn own_import_syntax_per_language() {
    assert!(import_is_valid(Lang::Rust, "crate_a::m_2::x"));
    assert!(!import_is_valid(Lang::Rust, "a:b"));
    assert!(!import_is_valid(Lang::Rust, "a::"));
    assert!(!import_is_valid(Lang::Rust, "a.b"));
    assert!(import_is_valid(Lang::Cpp, "include/my-lib/v1.2/x.hpp"));
    assert!(!import_is_valid(Lang::Cpp, "/abs/x.hpp"));
    assert!(!import_is_valid(Lang::Cpp, "a/./x.hpp"));
    assert!(!import_is_valid(Lang::Cpp, ""));
    assert!(import_is_valid(Lang::CSharp, "My.App_2"));
    assert!(!import_is_valid(Lang::Python, "2pkg.mod"));
    assert!(!import_is_valid(Lang::Lua, "a..b"));
    assert!(import_is_valid(Lang::JsQuickJs, "lodash"));
    assert!(import_is_valid(Lang::JsQuickJs, "@scope/pkg/sub"));
    assert!(!import_is_valid(Lang::JsQuickJs, "./local"));
    assert!(!import_is_valid(Lang::JsQuickJs, "@/pkg"));
    match output_destination(Lang::Python, "--domain-types-out", args(None, Some("../outside"), false)) {
        Err(CodegenError::ValidationFailed { message }) => assert_eq!(message, "invalid python import `../outside`"),
        other => panic!("unexpected {other:?}"),
    }
}
