//! The directive model: what one instruction of a manifest says, reduced to
//! its kind and its raw string payload.

use vstd::prelude::*;

verus! {

/// One parsed instruction of a manifest.
#[derive(Clone, Debug, PartialEq, Eq)]
pub enum Directive {
    /// `FROM`: the module binary, as a path or a URI.
    Source(String),
    /// `LINK`: modules the entry module depends on. Recorded, not fetched.
    Dependencies(Vec<String>),
    /// `MAP`: filesystem and stream mappings, each written `host:guest`.
    Mappings(Vec<String>),
    /// `NET`: patterns of the network peers the module may reach.
    NetworkAllow(Vec<String>),
    /// `ENV`: one environment variable, as key and value.
    EnvAssign(String, String),
    /// `ENV_PWD_IS_HOST_CWD`: the module starts in the host's directory.
    InheritWorkingDirectory,
    /// `ENV_EXE_NAME_IS_HOST_EXE_NAME`: the module sees the host's
    /// executable name as its own.
    InheritProcessName,
    /// `ENTRYPOINT`: the function to call at startup and its arguments.
    EntryCall(String, Vec<String>),
}

/// A directive as contracts see it: its strings as character sequences.
pub enum DirectiveView {
    Source(Seq<char>),
    Dependencies(Seq<Seq<char>>),
    Mappings(Seq<Seq<char>>),
    NetworkAllow(Seq<Seq<char>>),
    EnvAssign(Seq<char>, Seq<char>),
    InheritWorkingDirectory,
    InheritProcessName,
    EntryCall(Seq<char>, Seq<Seq<char>>),
}

impl DeepView for Directive {
    type V = DirectiveView;

    open spec fn deep_view(&self) -> DirectiveView {
        match self {
            Directive::Source(path) => DirectiveView::Source(path@),
            Directive::Dependencies(list) => DirectiveView::Dependencies(list.deep_view()),
            Directive::Mappings(list) => DirectiveView::Mappings(list.deep_view()),
            Directive::NetworkAllow(list) => DirectiveView::NetworkAllow(list.deep_view()),
            Directive::EnvAssign(key, value) => DirectiveView::EnvAssign(key@, value@),
            Directive::InheritWorkingDirectory => DirectiveView::InheritWorkingDirectory,
            Directive::InheritProcessName => DirectiveView::InheritProcessName,
            Directive::EntryCall(name, argv) => DirectiveView::EntryCall(name@, argv.deep_view()),
        }
    }
}

} // verus!
