//! Deciding what a command line asks for: which generation, validation or
//! signing step to run and with which inputs, or why the options are refused.
//! Running the step (reading manifests, writing files, signing) is left to
//! the caller.
use crate::error::CodegenError;
use crate::output::{
    destination_error, destination_of, destination_ok, lang_of, output_layout, parse_lang, unknown_lang_message, Lang,
    OutputDestination, OutputLayout, PartitionOutputArgs, Side,
};
use vstd::prelude::*;

verus! {

/// A subcommand with its options, paths as given.
#[derive(Debug, Clone)]
pub enum Command {
    /// Generate code from an `api.toml` (host side) or a `bundle.toml` (guest
    /// side); `internal` generates both sides of one internal bundle.
    Generate {
        api: Option<String>,
        bundle: Option<String>,
        internal: bool,
        lang: String,
        out: String,
        domain_types: PartitionOutputArgs,
        guest_contracts: PartitionOutputArgs,
    },
    /// Validate an `api.toml`, a `bundle.toml` or an assembled bundle directory.
    Validate { api: Option<String>, bundle: Option<String>, bundle_dir: Option<String> },
    /// Write a new signing keypair into a directory.
    Keygen { out: String },
    /// Sign an assembled bundle directory with a key file.
    Sign { bundle_dir: String, key: String },
    /// Check a bundle directory's signature.
    Verify { bundle_dir: String },
}

/// The step a command asks for.
#[derive(Debug, Clone)]
pub enum CommandPlan {
    /// Generate guest provider and host caller code for one internal bundle.
    GenerateInternal { lang: Lang, bundle_toml: String, out: String, layout: OutputLayout },
    /// Generate one side's code from a manifest.
    Generate { manifest: String, lang: Lang, side: Side, out: String, layout: OutputLayout },
    /// Validate an assembled bundle directory.
    ValidateBundleDir { dir: String },
    /// Validate an `api.toml` or a `bundle.toml`.
    ValidateManifest { manifest: String },
    /// Write a new keypair into `out`.
    Keygen { out: String },
    /// Sign `bundle_dir` with the key in `key`.
    Sign { bundle_dir: String, key: String },
    /// Check the signature of `bundle_dir`.
    Verify { bundle_dir: String },
}

/// Whether `l` is the layout decided for the two partitions' options.
pub open spec fn layout_of(domain_types: PartitionOutputArgs, guest_contracts: PartitionOutputArgs, l: OutputLayout) -> bool {
    &&& l.bindings == OutputDestination::Inline
    &&& destination_of(domain_types, l.domain_types)
    &&& destination_of(guest_contracts, l.guest_contracts)
}

/// Why `cmd` is refused, if it is: an unknown language, a partition's
/// conflicting options or an import its language cannot name, `--internal`
/// without `--bundle`, or no manifest.
pub open spec fn plan_error(cmd: Command) -> Option<Seq<char>> {
    match cmd {
        Command::Generate { api, bundle, internal, lang, out, domain_types, guest_contracts } => {
            if lang_of(lang@) is None {
                Some(unknown_lang_message(lang@))
            } else if !destination_ok(lang_of(lang@)->0, domain_types) {
                Some(destination_error(lang_of(lang@)->0, "--domain-types-out"@, domain_types))
            } else if !destination_ok(lang_of(lang@)->0, guest_contracts) {
                Some(destination_error(lang_of(lang@)->0, "--guest-contracts-out"@, guest_contracts))
            } else if internal && bundle is None {
                Some("--internal requires --bundle"@)
            } else if !internal && api is None && bundle is None {
                Some("Must specify --api or --bundle"@)
            } else {
                None
            }
        },
        Command::Validate { api, bundle, bundle_dir } => {
            if bundle_dir is None && api is None && bundle is None {
                Some("Must specify --api, --bundle, or --bundle-dir"@)
            } else {
                None
            }
        },
        _ => None,
    }
}

/// Whether `p` is the step asked for by a `cmd` that is not refused: an
/// internal generation from the bundle; otherwise a host-side generation from
/// `--api` when given, else a guest-side one from `--bundle`; a bundle
/// directory's validation before a manifest's, `--api` before `--bundle`.
pub open spec fn plan_of(cmd: Command, p: CommandPlan) -> bool {
    match cmd {
        Command::Generate { api, bundle, internal, lang, out, domain_types, guest_contracts } => {
            if internal {
                p matches CommandPlan::GenerateInternal { lang: l, bundle_toml, out: o, layout } && Some(l) == lang_of(lang@)
                    && bundle_toml@ == bundle->0@ && o@ == out@ && layout_of(domain_types, guest_contracts, layout)
            } else {
                p matches CommandPlan::Generate { manifest, lang: l, side, out: o, layout } && Some(l) == lang_of(lang@)
                    && o@ == out@ && layout_of(domain_types, guest_contracts, layout) && (if api is Some {
                    manifest@ == api->0@ && side == Side::Host
                } else {
                    manifest@ == bundle->0@ && side == Side::Guest
                })
            }
        },
        Command::Validate { api, bundle, bundle_dir } => {
            if bundle_dir is Some {
                p matches CommandPlan::ValidateBundleDir { dir } && dir@ == bundle_dir->0@
            } else {
                p matches CommandPlan::ValidateManifest { manifest } && manifest@ == (if api is Some {
                    api->0@
                } else {
                    bundle->0@
                })
            }
        },
        Command::Keygen { out } => p matches CommandPlan::Keygen { out: o } && o@ == out@,
        Command::Sign { bundle_dir, key } => p matches CommandPlan::Sign { bundle_dir: d, key: k } && d@ == bundle_dir@
            && k@ == key@,
        Command::Verify { bundle_dir } => p matches CommandPlan::Verify { bundle_dir: d } && d@ == bundle_dir@,
    }
}

/// Decide the step `cmd` asks for. The checks come in this order: the
/// language, the domain-type options, the guest-contract options, then the
/// manifest options.
pub fn plan_command(cmd: Command) -> (r: Result<CommandPlan, CodegenError>)
    ensures
        match plan_error(cmd) {
            Some(m) => r matches Err(CodegenError::ValidationFailed { message }) && message@ == m,
            None => r matches Ok(p) && plan_of(cmd, p),
        },
{
    match cmd {
        Command::Generate { api, bundle, internal, lang, out, domain_types, guest_contracts } => {
            let language: Lang = match parse_lang(lang.as_str()) {
                Ok(l) => l,
                Err(e) => return Err(e),
            };
            let layout: OutputLayout = match output_layout(language, domain_types, guest_contracts) {
                Ok(l) => l,
                Err(e) => return Err(e),
            };
            if internal {
                match bundle {
                    Some(bundle_toml) => Ok(CommandPlan::GenerateInternal { lang: language, bundle_toml, out, layout }),
                    None => Err(CodegenError::ValidationFailed { message: "--internal requires --bundle".to_owned() }),
                }
            } else {
                match (api, bundle) {
                    (Some(manifest), _) => Ok(CommandPlan::Generate { manifest, lang: language, side: Side::Host, out, layout }),
                    (None, Some(manifest)) => Ok(CommandPlan::Generate { manifest, lang: language, side: Side::Guest, out, layout }),
                    (None, None) => Err(CodegenError::ValidationFailed { message: "Must specify --api or --bundle".to_owned() }),
                }
            }
        },
        Command::Validate { api, bundle, bundle_dir } => {
            match (bundle_dir, api, bundle) {
                (Some(dir), _, _) => Ok(CommandPlan::ValidateBundleDir { dir }),
                (None, Some(manifest), _) => Ok(CommandPlan::ValidateManifest { manifest }),
                (None, None, Some(manifest)) => Ok(CommandPlan::ValidateManifest { manifest }),
                (None, None, None) => Err(
                    CodegenError::ValidationFailed { message: "Must specify --api, --bundle, or --bundle-dir".to_owned() },
                ),
            }
        },
        Command::Keygen { out } => Ok(CommandPlan::Keygen { out }),
        Command::Sign { bundle_dir, key } => Ok(CommandPlan::Sign { bundle_dir, key }),
        Command::Verify { bundle_dir } => Ok(CommandPlan::Verify { bundle_dir }),
    }
}

} // verus!
