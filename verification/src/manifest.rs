//! The compiled manifest: the validated description of a module's source,
//! dependencies, mappings, network allow-list, environment and entry call.

use vstd::prelude::*;

verus! {

/// A compiled manifest.
#[derive(Clone, Debug, PartialEq, Eq)]
pub struct Manifest {
    /// Where the module binary is: a resolved path, or a URI as written.
    pub source_path: String,
    /// The modules the entry module depends on.
    pub dependencies: Vec<String>,
    /// Host and guest side of each mapping.
    pub mappings: Vec<(String, String)>,
    /// Patterns of the network peers the module may reach.
    pub network_allow: Vec<String>,
    /// The environment, one `KEY=VALUE` string for each key.
    pub env: Vec<String>,
    /// Whether the module starts in the host's working directory.
    pub inherit_cwd: bool,
    /// Whether the module sees the host's executable name as its own.
    pub inherit_process_name: bool,
    /// The function called at startup; empty where none was named.
    pub entry_call: String,
    /// The arguments that the entry call is invoked with.
    pub entry_args: Vec<String>,
}

/// A manifest as contracts see it.
pub struct ManifestView {
    pub source_path: Seq<char>,
    pub dependencies: Seq<Seq<char>>,
    pub mappings: Seq<(Seq<char>, Seq<char>)>,
    pub network_allow: Seq<Seq<char>>,
    pub env: Seq<Seq<char>>,
    pub inherit_cwd: bool,
    pub inherit_process_name: bool,
    pub entry_call: Seq<char>,
    pub entry_args: Seq<Seq<char>>,
}

impl ManifestView {
    /// What every manifest fit for assembly satisfies: it names its module,
    /// and both sides of each mapping are non-empty.
    pub open spec fn well_formed(self) -> bool {
        &&& self.source_path.len() > 0
        &&& forall|i: int|
            0 <= i < self.mappings.len() ==> (#[trigger] self.mappings[i]).0.len() > 0
                && self.mappings[i].1.len() > 0
    }
}

impl View for Manifest {
    type V = ManifestView;

    open spec fn view(&self) -> ManifestView {
        ManifestView {
            source_path: self.source_path@,
            dependencies: self.dependencies.deep_view(),
            mappings: self.mappings.deep_view(),
            network_allow: self.network_allow.deep_view(),
            env: self.env.deep_view(),
            inherit_cwd: self.inherit_cwd,
            inherit_process_name: self.inherit_process_name,
            entry_call: self.entry_call@,
            entry_args: self.entry_args.deep_view(),
        }
    }
}

} // verus!
