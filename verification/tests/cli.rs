use polyplugc::cli::{plan_command, Command, CommandPlan};
use polyplugc::error::CodegenError;
use polyplugc::output::{Lang, OutputDestination, PartitionOutputArgs, Side};

fn none() -> PartitionOutputArgs {
    PartitionOutputArgs { out: None, import: None, omit: false }
}

fn generate(api: Option<&str>, bundle: Option<&str>, internal: bool, lang: &str) -> Command {
    Command::Generate {
        api: api.map(|s| s.to_owned()),
        bundle: bundle.map(|s| s.to_owned()),
        internal,
        lang: lang.to_owned(),
        out: "gen".to_owned(),
        domain_types: none(),
        guest_contracts: none(),
    }
}

fn message(r: Result<CommandPlan, CodegenError>) -> String {
    match r {
        Err(CodegenError::ValidationFailed { message }) => message,
        other => panic!("expected a refusal, got {other:?}"),
    }
}

#[test]
fn own_plan_generate_sides_and_refusals() {
    match plan_command(generate(Some("api.toml"), None, false, "cpp")).expect("host") {
        CommandPlan::Generate { manifest, lang, side, out, layout } => {
            assert_eq!(manifest, "api.toml");
            assert_eq!(lang, Lang::Cpp);
            assert_eq!(side, Side::Host);
            assert_eq!(out, "gen");
            assert_eq!(layout.bindings, OutputDestination::Inline);
            assert_eq!(layout.domain_types, OutputDestination::Inline);
        }
        other => panic!("{other:?}"),
    }
    match plan_command(generate(None, Some("b/bundle.toml"), false, "lua")).expect("guest") {
        CommandPlan::Generate { manifest, side, .. } => {
            assert_eq!(manifest, "b/bundle.toml");
            assert_eq!(side, Side::Guest);
        }
        other => panic!("{other:?}"),
    }
    match plan_command(generate(None, Some("b/bundle.toml"), true, "js-quickjs")).expect("internal") {
        CommandPlan::GenerateInternal { bundle_toml, lang, .. } => {
            assert_eq!(bundle_toml, "b/bundle.toml");
            assert_eq!(lang, Lang::JsQuickJs);
        }
        other => panic!("{other:?}"),
    }
    assert_eq!(message(plan_command(generate(Some("api.toml"), None, true, "rust"))), "--internal requires --bundle");
    assert_eq!(message(plan_command(generate(None, None, false, "rust"))), "Must specify --api or --bundle");
    assert_eq!(
        message(plan_command(generate(None, None, false, "go"))),
        "Unknown language: `go`. Supported: rust, cpp, csharp, python, lua, js-quickjs"
    );
    let bad_layout = Command::Generate {
        api: Some("api.toml".to_owned()),
        bundle: None,
        internal: false,
        lang: "cpp".to_owned(),
        out: "gen".to_owned(),
        domain_types: none(),
        guest_contracts: PartitionOutputArgs { out: Some("gc".to_owned()), import: None, omit: false },
    };
    assert_eq!(message(plan_command(bad_layout)), "--guest-contracts-out requires its matching import flag");
}

#[test]
fn own_plan_validate_and_signing() {
    let validate = |api: Option<&str>, bundle: Option<&str>, dir: Option<&str>| Command::Validate {
        api: api.map(|s| s.to_owned()),
        bundle: bundle.map(|s| s.to_owned()),
        bundle_dir: dir.map(|s| s.to_owned()),
    };
    assert!(matches!(
        plan_command(validate(Some("api.toml"), None, Some("dist"))).expect("dir"),
        CommandPlan::ValidateBundleDir { dir } if dir == "dist"
    ));
    assert!(matches!(
        plan_command(validate(None, Some("bundle.toml"), None)).expect("bundle"),
        CommandPlan::ValidateManifest { manifest } if manifest == "bundle.toml"
    ));
    assert_eq!(
        message(plan_command(validate(None, None, None))),
        "Must specify --api, --bundle, or --bundle-dir"
    );
    assert!(matches!(
        plan_command(Command::Keygen { out: "keys".to_owned() }).expect("keygen"),
        CommandPlan::Keygen { out } if out == "keys"
    ));
    assert!(matches!(
        plan_command(Command::Sign { bundle_dir: "dist".to_owned(), key: "signing.key".to_owned() }).expect("sign"),
        CommandPlan::Sign { bundle_dir, key } if bundle_dir == "dist" && key == "signing.key"
    ));
    assert!(matches!(
        plan_command(Command::Verify { bundle_dir: "dist".to_owned() }).expect("verify"),
        CommandPlan::Verify { bundle_dir } if bundle_dir == "dist"
    ));
}
