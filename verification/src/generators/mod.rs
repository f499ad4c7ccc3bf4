//! Generators — the pieces shared by every language generator.
use crate::ir::{ResolvedContract, ResolvedDependency, ValidatedIr};
use crate::text::{
    has_prefix, hex_digits, dec_digits, pascal, push_hex16, push_pascal, push_u32, starts_with,
    str_eq, lower_str, strip_prefix_or_self, strip_prefix_or_self_chars, to_lowercase,
};
use vstd::prelude::*;

pub mod agreement;
pub mod properties;
pub mod cpp;
pub mod enum_values;
pub mod js_quickjs;
pub mod lua;
pub mod manifest;

verus! {

/// Arena buffer length (bytes) emitted by every language generator.
pub const CALL_ARENA_BUF_LEN: usize = 512;

/// A single generated file (path + content).
#[derive(Debug)]
pub struct GeneratedFile {
    /// Relative output path.
    pub path: String,
    /// Generated source code.
    pub content: String,
    /// If true, always write this file (skip the unchanged-content check).
    pub force_regenerate: bool,
}

/// Collection of generated files.
#[derive(Debug)]
pub struct GeneratedFiles {
    pub files: Vec<GeneratedFile>,
}

impl Default for GeneratedFiles {
    fn default() -> (r: Self)
        ensures
            r.files@.len() == 0,
    {
        GeneratedFiles { files: Vec::new() }
    }
}

/// A generated file as `(path, content, force_regenerate)`.
pub open spec fn file_view(f: GeneratedFile) -> (Seq<char>, Seq<char>, bool) {
    (f.path@, f.content@, f.force_regenerate)
}

/// The views of a list of generated files.
pub open spec fn files_view(fs: Seq<GeneratedFile>) -> Seq<(Seq<char>, Seq<char>, bool)> {
    fs.map_values(|f: GeneratedFile| file_view(f))
}

/// Appends a generated file.
pub fn push_file(files: &mut GeneratedFiles, path: &str, content: String, force_regenerate: bool)
    ensures
        files_view(final(files).files@) == files_view(old(files).files@).push((path@, content@, force_regenerate)),
{
    files.files.push(GeneratedFile { path: path.to_owned(), content, force_regenerate });
    assert(files_view(files.files@) =~= files_view(old(files).files@).push((path@, content@, force_regenerate)));
}

/// A language-specific code generator.
pub trait CodeGenerator {
    /// Generate host-side caller code for an app developer.
    fn generate_host(&self, ir: &ValidatedIr, files: &mut GeneratedFiles) -> Result<(), crate::error::CodegenError>;

    /// Generate guest-side SDK and ABI wrappers for plugin developers.
    fn generate_guest(&self, ir: &ValidatedIr, files: &mut GeneratedFiles) -> Result<(), crate::error::CodegenError>;
}

/// The contracts the IR's bundle depends on, in declaration order.
pub open spec fn peer_contracts(ir: &ValidatedIr) -> Seq<ResolvedContract> {
    peer_contract_indices(ir.contracts@, bundle_dependencies(ir)).map_values(|i: int| ir.contracts@[i])
}

/// Check if a runtime is a native runtime.
pub fn is_native_runtime(runtime: &str) -> (r: bool)
    ensures
        r == (lower_str(runtime@) == "native"@),
{
    let lower: String = to_lowercase(runtime);
    str_eq(lower.as_str(), "native")
}

// ─── Host contract class names ──────────────────────────────────────────────

/// A host contract name without its `host.` prefix, in PascalCase, starting
/// with `Host` (added unless already there).
pub open spec fn host_class_base(name: Seq<char>) -> Seq<char> {
    let p = pascal(strip_prefix_or_self(name, "host."@), '.');
    if has_prefix(p, "Host"@) {
        p
    } else {
        "Host"@ + p
    }
}

/// Builds `host_class_base(name)`.
pub fn host_class_base_of(name: &str) -> (r: String)
    ensures
        r@ == host_class_base(name@),
{
    let stripped: Vec<char> = strip_prefix_or_self_chars(name, "host.");
    let mut p: String = String::new();
    push_pascal(&mut p, &stripped, '.');
    assert(p@ == pascal(strip_prefix_or_self(name@, "host."@), '.'));
    if starts_with(p.as_str(), "Host") {
        p
    } else {
        let mut r: String = String::new();
        r.append("Host");
        r.append(p.as_str());
        r
    }
}

// ─── Peer contracts ─────────────────────────────────────────────────────────

/// The contract id a dependency points at.
pub open spec fn dependency_contract_id(d: ResolvedDependency) -> u64 {
    match d {
        ResolvedDependency::ByContract { contract_id, .. } => contract_id,
        ResolvedDependency::ByBundle { contract_id, .. } => contract_id,
    }
}

/// The minimum major version a dependency asks for.
pub open spec fn dependency_min_version(d: ResolvedDependency) -> u32 {
    match d {
        ResolvedDependency::ByContract { min_version, .. } => min_version,
        ResolvedDependency::ByBundle { min_version, .. } => min_version,
    }
}

/// Whether some dependency points at contract id `id`.
pub open spec fn depends_on(deps: Seq<ResolvedDependency>, id: u64) -> bool {
    exists|i: int| 0 <= i < deps.len() && dependency_contract_id(#[trigger] deps[i]) == id
}

/// The dependencies of the IR's bundle (none without a bundle).
pub open spec fn bundle_dependencies(ir: &ValidatedIr) -> Seq<ResolvedDependency> {
    match ir.bundle {
        Some(b) => b.dependencies@,
        None => Seq::<ResolvedDependency>::empty(),
    }
}

/// The contracts, in declaration order, that the bundle depends on.
pub open spec fn peer_contract_indices(contracts: Seq<ResolvedContract>, deps: Seq<ResolvedDependency>) -> Seq<int>
    decreases contracts.len(),
{
    if contracts.len() == 0 {
        Seq::<int>::empty()
    } else {
        let rest = peer_contract_indices(contracts.drop_last(), deps);
        if depends_on(deps, contracts.last().contract_id) {
            rest.push(contracts.len() - 1)
        } else {
            rest
        }
    }
}

fn has_dependency(deps: &Vec<ResolvedDependency>, id: u64) -> (r: bool)
    ensures
        r == depends_on(deps@, id),
{
    let mut i: usize = 0;
    while i < deps.len()
        invariant
            i <= deps@.len(),
            forall|k: int| 0 <= k < i ==> dependency_contract_id(#[trigger] deps@[k]) != id,
        decreases deps@.len() - i,
    {
        let dep_id: u64 = match &deps[i] {
            ResolvedDependency::ByContract { contract_id, .. } => *contract_id,
            ResolvedDependency::ByBundle { contract_id, .. } => *contract_id,
        };
        if dep_id == id {
            assert(dependency_contract_id(deps@[i as int]) == id);
            return true;
        }
        i = i + 1;
    }
    false
}

/// Collect every contract in `ir.contracts` whose `contract_id` appears in the
/// bundle's declared dependencies, in declaration order. Empty when there is
/// no bundle or when no dependency matches any known contract.
pub fn collect_peer_contracts(ir: &ValidatedIr) -> (r: Vec<&ResolvedContract>)
    ensures
        r@.len() == peer_contract_indices(ir.contracts@, bundle_dependencies(ir)).len(),
        forall|k: int| 0 <= k < r@.len() ==> *(#[trigger] r@[k]) == ir.contracts@[peer_contract_indices(ir.contracts@, bundle_dependencies(ir))[k]],
        r@.map_values(|c: &ResolvedContract| *c) == peer_contracts(ir),
{
    let mut r: Vec<&ResolvedContract> = Vec::new();
    let deps: &Vec<ResolvedDependency> = match &ir.bundle {
        Some(b) => &b.dependencies,
        None => {
            assert(peer_contract_indices(ir.contracts@, bundle_dependencies(ir)).len() == 0) by {
                lemma_no_peers_without_deps(ir.contracts@, bundle_dependencies(ir));
            }
            assert(r@.map_values(|c: &ResolvedContract| *c) =~= peer_contracts(ir));
            return r;
        },
    };
    let ghost all = ir.contracts@;
    let mut i: usize = 0;
    while i < ir.contracts.len()
        invariant
            all == ir.contracts@,
            deps@ == bundle_dependencies(ir),
            i <= all.len(),
            r@.len() == peer_contract_indices(all.take(i as int), deps@).len(),
            forall|k: int| 0 <= k < r@.len() ==> *(#[trigger] r@[k]) == all[peer_contract_indices(all.take(i as int), deps@)[k]],
            forall|k: int| 0 <= k < r@.len() ==> 0 <= #[trigger] peer_contract_indices(all.take(i as int), deps@)[k] < i,
        decreases all.len() - i,
    {
        proof {
            lemma_peer_indices_bounded(all.take(i as int), deps@);
            assert(all.take(i + 1).drop_last() =~= all.take(i as int));
        }
        let c: &ResolvedContract = &ir.contracts[i];
        if has_dependency(deps, c.contract_id) {
            r.push(c);
        }
        i = i + 1;
    }
    assert(all.take(i as int) =~= all);
    assert(r@.map_values(|c: &ResolvedContract| *c) =~= peer_contracts(ir));
    r
}

/// Every index `peer_contract_indices` yields is a position of the contract list.
pub proof fn lemma_peer_indices_bounded(contracts: Seq<ResolvedContract>, deps: Seq<ResolvedDependency>)
    ensures
        forall|k: int| 0 <= k < peer_contract_indices(contracts, deps).len() ==> 0 <= #[trigger] peer_contract_indices(contracts, deps)[k] < contracts.len(),
    decreases contracts.len(),
{
    if contracts.len() > 0 {
        lemma_peer_indices_bounded(contracts.drop_last(), deps);
        let rest = peer_contract_indices(contracts.drop_last(), deps);
        assert forall|k: int| 0 <= k < peer_contract_indices(contracts, deps).len() implies 0
            <= #[trigger] peer_contract_indices(contracts, deps)[k] < contracts.len() by {
            if k < rest.len() {
                assert(peer_contract_indices(contracts, deps)[k] == rest[k]);
            }
        }
    }
}

/// Without dependencies there are no peer contracts.
pub proof fn lemma_no_peers_without_deps(contracts: Seq<ResolvedContract>, deps: Seq<ResolvedDependency>)
    requires
        deps.len() == 0,
    ensures
        peer_contract_indices(contracts, deps).len() == 0,
    decreases contracts.len(),
{
    if contracts.len() > 0 {
        lemma_no_peers_without_deps(contracts.drop_last(), deps);
    }
}

/// The `min_version` of the first dependency on contract `id`, 0 when none.
pub open spec fn min_version_for(deps: Seq<ResolvedDependency>, id: u64) -> u32
    decreases deps.len(),
{
    if deps.len() == 0 {
        0
    } else if dependency_contract_id(deps[0]) == id {
        dependency_min_version(deps[0])
    } else {
        min_version_for(deps.drop_first(), id)
    }
}

/// Return the `min_version` (major) for the first dependency whose
/// `contract_id` matches `target_contract_id`; 0 when no match is found.
pub fn peer_min_version(ir: &ValidatedIr, target_contract_id: u64) -> (r: u32)
    ensures
        r == min_version_for(bundle_dependencies(ir), target_contract_id),
{
    let deps: &Vec<ResolvedDependency> = match &ir.bundle {
        Some(b) => &b.dependencies,
        None => {
            return 0;
        },
    };
    let mut i: usize = 0;
    assert(deps@.skip(0) =~= deps@);
    while i < deps.len()
        invariant
            deps@ == bundle_dependencies(ir),
            i <= deps@.len(),
            min_version_for(deps@, target_contract_id) == min_version_for(deps@.skip(i as int), target_contract_id),
        decreases deps@.len() - i,
    {
        assert(deps@.skip(i as int).drop_first() =~= deps@.skip(i + 1));
        assert(deps@.skip(i as int)[0] == deps@[i as int]);
        match &deps[i] {
            ResolvedDependency::ByContract { contract_id, min_version, .. } => {
                if *contract_id == target_contract_id {
                    return *min_version;
                }
            },
            ResolvedDependency::ByBundle { contract_id, min_version, .. } => {
                if *contract_id == target_contract_id {
                    return *min_version;
                }
            },
        }
        i = i + 1;
    }
    0
}

// ─── Manifest dependency tables ─────────────────────────────────────────────

/// The `[[dependency]]` table for one dependency.
pub open spec fn dependency_table(d: ResolvedDependency) -> Seq<char> {
    match d {
        ResolvedDependency::ByContract { contract, contract_id, min_version } => {
            "\n[[dependency]]\n"@ + "kind = \"contract\"\n"@ + "contract = \""@ + contract@ + "\"\n"@
                + "contract_id = 0x"@ + hex_digits(contract_id as nat, 16) + "\n"@ + "min_version = \""@
                + dec_digits(min_version as nat) + ".0\"\n"@
        },
        ResolvedDependency::ByBundle { bundle, bundle_id, contract, contract_id, min_version } => {
            "\n[[dependency]]\n"@ + "kind = \"bundle\"\n"@ + "bundle = \""@ + bundle@ + "\"\n"@
                + "bundle_id = 0x"@ + hex_digits(bundle_id as nat, 16) + "\n"@ + "contract = \""@
                + contract@ + "\"\n"@ + "contract_id = 0x"@ + hex_digits(contract_id as nat, 16)
                + "\n"@ + "min_version = \""@ + dec_digits(min_version as nat) + ".0\"\n"@
        },
    }
}

/// The dependency tables of `deps`, in order.
pub open spec fn dependency_tables(deps: Seq<ResolvedDependency>) -> Seq<char>
    decreases deps.len(),
{
    if deps.len() == 0 {
        Seq::<char>::empty()
    } else {
        dependency_tables(deps.drop_last()) + dependency_table(deps.last())
    }
}

/// Emit the `[[dependency]]` tables for a bundle manifest: `kind`, `contract`,
/// `contract_id` (hex `0x{:016X}`), for by-bundle dependencies also `bundle`
/// and `bundle_id`, and `min_version` as the quoted string `"{major}.0"`.
pub fn emit_manifest_dependencies(dependencies: &Vec<ResolvedDependency>) -> (r: String)
    ensures
        r@ == dependency_tables(dependencies@),
{
    let mut dep_toml: String = String::new();
    let mut i: usize = 0;
    while i < dependencies.len()
        invariant
            i <= dependencies@.len(),
            dep_toml@ == dependency_tables(dependencies@.take(i as int)),
        decreases dependencies@.len() - i,
    {
        let ghost before = dep_toml@;
        dep_toml.append("\n[[dependency]]\n");
        match &dependencies[i] {
            ResolvedDependency::ByContract { contract, contract_id, min_version } => {
                dep_toml.append("kind = \"contract\"\n");
                dep_toml.append("contract = \"");
                dep_toml.append(contract.as_str());
                dep_toml.append("\"\n");
                dep_toml.append("contract_id = 0x");
                push_hex16(&mut dep_toml, *contract_id);
                dep_toml.append("\n");
                dep_toml.append("min_version = \"");
                push_u32(&mut dep_toml, *min_version);
                dep_toml.append(".0\"\n");
            },
            ResolvedDependency::ByBundle { bundle, bundle_id, contract, contract_id, min_version } => {
                dep_toml.append("kind = \"bundle\"\n");
                dep_toml.append("bundle = \"");
                dep_toml.append(bundle.as_str());
                dep_toml.append("\"\n");
                dep_toml.append("bundle_id = 0x");
                push_hex16(&mut dep_toml, *bundle_id);
                dep_toml.append("\n");
                dep_toml.append("contract = \"");
                dep_toml.append(contract.as_str());
                dep_toml.append("\"\n");
                dep_toml.append("contract_id = 0x");
                push_hex16(&mut dep_toml, *contract_id);
                dep_toml.append("\n");
                dep_toml.append("min_version = \"");
                push_u32(&mut dep_toml, *min_version);
                dep_toml.append(".0\"\n");
            },
        }
        proof {
            assert(dependencies@.take(i + 1).drop_last() =~= dependencies@.take(i as int));
            assert(dep_toml@ =~= before + dependency_table(dependencies@[i as int]));
        }
        i = i + 1;
    }
    assert(dependencies@.take(i as int) =~= dependencies@);
    dep_toml
}

} // verus!
