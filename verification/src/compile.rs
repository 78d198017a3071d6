//! The manifest compiler. Directives are applied in the order in which they
//! stand; a later directive of a kind replaces what an earlier one of that
//! kind set, and a later assignment of an environment key replaces the
//! earlier one. Once all are applied, a manifest without module reference is
//! refused.

use vstd::prelude::*;
use vstd::string::*;
use crate::directive::{Directive, DirectiveView};
use crate::env::{
    assign, assigned, distinct_keys, entries, entry, has_key, lemma_assigned,
    lemma_one_entry_for_key, lookup, place, render_entries, Table,
};
use crate::error::{CompileError, MandatoryField};
use crate::manifest::{Manifest, ManifestView};
use crate::mapping::{accept_mappings, accepted_mappings, lemma_accepted_mappings_sound};
use crate::path::{lemma_resolved_nonempty, resolve, resolved};
use crate::text::copy_strings;

verus! {

/// What the directives applied so far have set.
pub struct Draft {
    pub source: Seq<char>,
    pub dependencies: Seq<Seq<char>>,
    pub mappings: Seq<(Seq<char>, Seq<char>)>,
    pub network_allow: Seq<Seq<char>>,
    pub env: Table,
    pub inherit_cwd: bool,
    pub inherit_process_name: bool,
    pub entry_call: Seq<char>,
    pub entry_args: Seq<Seq<char>>,
}

/// The draft before any directive: nothing is set.
pub open spec fn blank() -> Draft {
    Draft {
        source: Seq::empty(),
        dependencies: Seq::empty(),
        mappings: Seq::empty(),
        network_allow: Seq::empty(),
        env: Seq::empty(),
        inherit_cwd: false,
        inherit_process_name: false,
        entry_call: Seq::empty(),
        entry_args: Seq::empty(),
    }
}

/// `draft` after `directive` was applied to it.
pub open spec fn applied(draft: Draft, directive: DirectiveView) -> Draft {
    match directive {
        DirectiveView::Source(path) => Draft { source: path, ..draft },
        DirectiveView::Dependencies(list) => Draft { dependencies: list, ..draft },
        DirectiveView::Mappings(list) => Draft { mappings: accepted_mappings(list), ..draft },
        DirectiveView::NetworkAllow(list) => Draft { network_allow: list, ..draft },
        DirectiveView::EnvAssign(key, value) => Draft {
            env: assigned(draft.env, key, value),
            ..draft
        },
        DirectiveView::InheritWorkingDirectory => Draft { inherit_cwd: true, ..draft },
        DirectiveView::InheritProcessName => Draft { inherit_process_name: true, ..draft },
        DirectiveView::EntryCall(name, argv) => Draft {
            entry_call: name,
            entry_args: argv,
            ..draft
        },
    }
}

/// The draft after all of `directives` were applied, first to last.
pub open spec fn drafted(directives: Seq<DirectiveView>) -> Draft
    decreases directives.len(),
{
    if directives.len() == 0 {
        blank()
    } else {
        applied(drafted(directives.drop_last()), directives.last())
    }
}

/// What `directives` compile to for a manifest in the directory
/// `manifest_dir`.
pub open spec fn compiled(directives: Seq<DirectiveView>, manifest_dir: Seq<char>) -> Result<
    ManifestView,
    CompileError,
> {
    let draft = drafted(directives);
    if draft.source.len() == 0 {
        Err(CompileError::MissingMandatoryField(MandatoryField::Source))
    } else {
        Ok(
            ManifestView {
                source_path: resolved(draft.source, manifest_dir),
                dependencies: draft.dependencies,
                mappings: draft.mappings,
                network_allow: draft.network_allow,
                env: entries(draft.env),
                inherit_cwd: draft.inherit_cwd,
                inherit_process_name: draft.inherit_process_name,
                entry_call: draft.entry_call,
                entry_args: draft.entry_args,
            },
        )
    }
}

/// Whether `a` and `b` set the same thing: they are of one kind and, where
/// they assign an environment variable, of one key.
pub open spec fn same_target(a: DirectiveView, b: DirectiveView) -> bool {
    match (a, b) {
        (DirectiveView::Source(_), DirectiveView::Source(_)) => true,
        (DirectiveView::Dependencies(_), DirectiveView::Dependencies(_)) => true,
        (DirectiveView::Mappings(_), DirectiveView::Mappings(_)) => true,
        (DirectiveView::NetworkAllow(_), DirectiveView::NetworkAllow(_)) => true,
        (DirectiveView::EnvAssign(k1, _), DirectiveView::EnvAssign(k2, _)) => k1 == k2,
        (
            DirectiveView::InheritWorkingDirectory,
            DirectiveView::InheritWorkingDirectory,
        ) => true,
        (DirectiveView::InheritProcessName, DirectiveView::InheritProcessName) => true,
        (DirectiveView::EntryCall(_, _), DirectiveView::EntryCall(_, _)) => true,
        _ => false,
    }
}

/// Whether `draft` holds what `directive` sets.
pub open spec fn reflects(draft: Draft, directive: DirectiveView) -> bool {
    match directive {
        DirectiveView::Source(path) => draft.source == path,
        DirectiveView::Dependencies(list) => draft.dependencies == list,
        DirectiveView::Mappings(list) => draft.mappings == accepted_mappings(list),
        DirectiveView::NetworkAllow(list) => draft.network_allow == list,
        DirectiveView::EnvAssign(key, value) => lookup(draft.env, key) == Some(value),
        DirectiveView::InheritWorkingDirectory => draft.inherit_cwd,
        DirectiveView::InheritProcessName => draft.inherit_process_name,
        DirectiveView::EntryCall(name, argv) => draft.entry_call == name && draft.entry_args
            == argv,
    }
}

/// Whether `draft` holds for the target of `directive` what a blank draft
/// holds.
pub open spec fn untouched(draft: Draft, directive: DirectiveView) -> bool {
    match directive {
        DirectiveView::Source(_) => draft.source.len() == 0,
        DirectiveView::Dependencies(_) => draft.dependencies.len() == 0,
        DirectiveView::Mappings(_) => draft.mappings.len() == 0,
        DirectiveView::NetworkAllow(_) => draft.network_allow.len() == 0,
        DirectiveView::EnvAssign(key, _) => lookup(draft.env, key) is None,
        DirectiveView::InheritWorkingDirectory => !draft.inherit_cwd,
        DirectiveView::InheritProcessName => !draft.inherit_process_name,
        DirectiveView::EntryCall(_, _) => draft.entry_call.len() == 0 && draft.entry_args.len()
            == 0,
    }
}

/// No key stands twice in a drafted environment.
pub proof fn lemma_env_keys_distinct(directives: Seq<DirectiveView>)
    ensures
        distinct_keys(drafted(directives).env),
    decreases directives.len(),
{
    if directives.len() > 0 {
        lemma_env_keys_distinct(directives.drop_last());
        let before = drafted(directives.drop_last());
        match directives.last() {
            DirectiveView::EnvAssign(key, value) => {
                lemma_assigned(before.env, key, value);
            },
            _ => {},
        }
    }
}

/// Applying a directive to a draft makes the draft hold what the directive
/// sets, and, where it has another target than `other`, leaves what the
/// draft holds for `other`'s target.
pub proof fn lemma_applied(draft: Draft, directive: DirectiveView, other: DirectiveView)
    ensures
        reflects(applied(draft, directive), directive),
        !same_target(directive, other) ==> (reflects(applied(draft, directive), other)
            == reflects(draft, other)),
        !same_target(directive, other) ==> (untouched(applied(draft, directive), other)
            == untouched(draft, other)),
{
    match directive {
        DirectiveView::EnvAssign(key, value) => {
            lemma_assigned(draft.env, key, value);
            match other {
                DirectiveView::EnvAssign(k2, v2) => {
                    if k2 != key {
                        assert(lookup(assigned(draft.env, key, value), k2) == lookup(
                            draft.env,
                            k2,
                        ));
                    }
                },
                _ => {},
            }
        },
        _ => {},
    }
}

/// The last directive for a target wins: where no directive after the one
/// at `k` has its target, the draft holds what that one sets.
pub proof fn lemma_last_wins(directives: Seq<DirectiveView>, k: int)
    requires
        0 <= k < directives.len(),
        forall|j: int|
            k < j < directives.len() ==> !same_target(#[trigger] directives[j], directives[k]),
    ensures
        reflects(drafted(directives), directives[k]),
    decreases directives.len(),
{
    let init = directives.drop_last();
    if k == directives.len() - 1 {
        lemma_applied(drafted(init), directives.last(), directives.last());
    } else {
        assert(init[k] == directives[k]);
        assert forall|j: int| k < j < init.len() implies !same_target(
            #[trigger] init[j],
            init[k],
        ) by {
            assert(init[j] == directives[j]);
        }
        lemma_last_wins(init, k);
        assert(!same_target(directives[directives.len() - 1], directives[k]));
        lemma_applied(drafted(init), directives.last(), directives[k]);
    }
}

/// What no directive targets stays as in a blank draft: empty, or false.
pub proof fn lemma_absent_stays_blank(directives: Seq<DirectiveView>, probe: DirectiveView)
    requires
        forall|j: int|
            0 <= j < directives.len() ==> !same_target(#[trigger] directives[j], probe),
    ensures
        untouched(drafted(directives), probe),
    decreases directives.len(),
{
    if directives.len() == 0 {
    } else {
        let init = directives.drop_last();
        assert forall|j: int| 0 <= j < init.len() implies !same_target(
            #[trigger] init[j],
            probe,
        ) by {
            assert(init[j] == directives[j]);
        }
        lemma_absent_stays_blank(init, probe);
        assert(!same_target(directives[directives.len() - 1], probe));
        lemma_applied(drafted(init), directives.last(), probe);
    }
}

/// The last assignment of an environment key decides its entry: the
/// environment holds for the key the one line `KEY=VALUE` with the value
/// assigned last, and no other entry for that key.
pub proof fn lemma_last_assignment_decides(
    directives: Seq<DirectiveView>,
    manifest_dir: Seq<char>,
    k: int,
)
    requires
        0 <= k < directives.len(),
        directives[k] is EnvAssign,
        forall|j: int|
            k < j < directives.len() ==> !same_target(#[trigger] directives[j], directives[k]),
    ensures
        ({
            let table = drafted(directives).env;
            let key = directives[k]->EnvAssign_0;
            let value = directives[k]->EnvAssign_1;
            &&& has_key(table, key)
            &&& entries(table)[place(table, key) as int] == entry((key, value))
            &&& forall|j: int|
                0 <= j < table.len() && (#[trigger] table[j]).0 == key ==> j == place(table, key)
            &&& compiled(directives, manifest_dir) matches Ok(manifest) ==> manifest.env
                == entries(table)
        }),
{
    lemma_last_wins(directives, k);
    lemma_env_keys_distinct(directives);
    lemma_one_entry_for_key(drafted(directives).env, directives[k]->EnvAssign_0);
}

/// Directives whose last module reference is not empty compile, to a
/// manifest that is well formed and names the reference as resolved.
pub proof fn lemma_source_present_compiles(
    directives: Seq<DirectiveView>,
    manifest_dir: Seq<char>,
    k: int,
)
    requires
        0 <= k < directives.len(),
        directives[k] matches DirectiveView::Source(path) && path.len() > 0,
        forall|j: int| k < j < directives.len() ==> !(#[trigger] directives[j] is Source),
    ensures
        compiled(directives, manifest_dir) matches Ok(manifest) && manifest.well_formed()
            && manifest.source_path == resolved(directives[k]->Source_0, manifest_dir),
{
    lemma_last_wins(directives, k);
    lemma_compiled_well_formed(directives, manifest_dir);
}

/// Directives without module reference, or whose last one is empty, are
/// refused for the missing source.
pub proof fn lemma_source_missing_fails(directives: Seq<DirectiveView>, manifest_dir: Seq<char>)
    requires
        (forall|j: int| 0 <= j < directives.len() ==> !(#[trigger] directives[j] is Source))
            || (exists|k: int|
            0 <= k < directives.len() && (#[trigger] directives[k]) == DirectiveView::Source(
                Seq::empty(),
            ) && (forall|j: int| k < j < directives.len() ==> !(#[trigger] directives[j] is Source))),
    ensures
        compiled(directives, manifest_dir) == Err::<ManifestView, CompileError>(
            CompileError::MissingMandatoryField(MandatoryField::Source),
        ),
{
    if forall|j: int| 0 <= j < directives.len() ==> !(#[trigger] directives[j] is Source) {
        lemma_absent_stays_blank(directives, DirectiveView::Source(Seq::empty()));
    } else {
        let k = choose|k: int|
            0 <= k < directives.len() && (#[trigger] directives[k]) == DirectiveView::Source(
                Seq::empty(),
            ) && (forall|j: int| k < j < directives.len() ==> !(#[trigger] directives[j] is Source));
        lemma_last_wins(directives, k);
    }
}

/// Whatever compiles is well formed, and its environment has one entry for
/// each key of the drafted table.
pub proof fn lemma_compiled_well_formed(directives: Seq<DirectiveView>, manifest_dir: Seq<char>)
    ensures
        compiled(directives, manifest_dir) matches Ok(manifest) ==> manifest.well_formed()
            && manifest.env.len() == drafted(directives).env.len(),
        distinct_keys(drafted(directives).env),
{
    lemma_env_keys_distinct(directives);
    lemma_mappings_sound(directives);
    let draft = drafted(directives);
    if draft.source.len() > 0 {
        lemma_resolved_nonempty(draft.source, manifest_dir);
    }
}

/// Both sides of every drafted mapping are non-empty.
pub proof fn lemma_mappings_sound(directives: Seq<DirectiveView>)
    ensures
        forall|i: int|
            0 <= i < drafted(directives).mappings.len() ==> (
            #[trigger] drafted(directives).mappings[i]).0.len() > 0 && drafted(
                directives,
            ).mappings[i].1.len() > 0,
    decreases directives.len(),
{
    if directives.len() == 0 {
        assert(drafted(directives).mappings.len() == 0);
    } else {
        let init = drafted(directives.drop_last());
        lemma_mappings_sound(directives.drop_last());
        match directives.last() {
            DirectiveView::Mappings(list) => {
                lemma_accepted_mappings_sound(list);
                assert(drafted(directives).mappings == accepted_mappings(list));
            },
            _ => {
                assert(drafted(directives).mappings == init.mappings);
            },
        }
    }
}

/// Compiles `directives` for a manifest that stands in the directory
/// `manifest_dir`. Fails, for the missing source, exactly where the last
/// module reference is empty or there is none.
pub fn compile(directives: &Vec<Directive>, manifest_dir: &str) -> (r: Result<
    Manifest,
    CompileError,
>)
    ensures
        match r {
            Ok(manifest) => compiled(directives.deep_view(), manifest_dir@) == Ok::<
                ManifestView,
                CompileError,
            >(manifest@) && manifest@.well_formed(),
            Err(e) => compiled(directives.deep_view(), manifest_dir@) == Err::<
                ManifestView,
                CompileError,
            >(e),
        },
{
    let ghost all = directives.deep_view();
    let mut source = String::new();
    let mut dependencies: Vec<String> = Vec::new();
    let mut mappings: Vec<(String, String)> = Vec::new();
    let mut network_allow: Vec<String> = Vec::new();
    let mut table: Vec<(String, String)> = Vec::new();
    let mut inherit_cwd = false;
    let mut inherit_process_name = false;
    let mut entry_call = String::new();
    let mut entry_args: Vec<String> = Vec::new();
    let n = directives.len();
    let mut i: usize = 0;
    assert(dependencies.deep_view() == Seq::<Seq<char>>::empty());
    assert(network_allow.deep_view() == Seq::<Seq<char>>::empty());
    assert(entry_args.deep_view() == Seq::<Seq<char>>::empty());
    assert(mappings.deep_view() == Seq::<(Seq<char>, Seq<char>)>::empty());
    assert(table.deep_view() == Seq::<(Seq<char>, Seq<char>)>::empty());
    while i < n
        invariant
            n == directives.len(),
            i <= n,
            all == directives.deep_view(),
            drafted(all.take(i as int)) == (Draft {
                source: source@,
                dependencies: dependencies.deep_view(),
                mappings: mappings.deep_view(),
                network_allow: network_allow.deep_view(),
                env: table.deep_view(),
                inherit_cwd,
                inherit_process_name,
                entry_call: entry_call@,
                entry_args: entry_args.deep_view(),
            }),
        decreases n - i,
    {
        proof {
            assert(all.take(i + 1).drop_last() == all.take(i as int));
            assert(all.take(i + 1).last() == directives[i as int].deep_view());
        }
        match &directives[i] {
            Directive::Source(path) => {
                source = path.clone();
            },
            Directive::Dependencies(list) => {
                dependencies = copy_strings(list);
            },
            Directive::Mappings(list) => {
                mappings = accept_mappings(list);
            },
            Directive::NetworkAllow(list) => {
                network_allow = copy_strings(list);
            },
            Directive::EnvAssign(key, value) => {
                assign(&mut table, key.clone(), value.clone());
            },
            Directive::InheritWorkingDirectory => {
                inherit_cwd = true;
            },
            Directive::InheritProcessName => {
                inherit_process_name = true;
            },
            Directive::EntryCall(name, argv) => {
                entry_call = name.clone();
                entry_args = copy_strings(argv);
            },
        }
        i += 1;
    }
    proof {
        assert(all.take(n as int) == all);
        lemma_compiled_well_formed(all, manifest_dir@);
    }
    if source.as_str().unicode_len() == 0 {
        return Err(CompileError::MissingMandatoryField(MandatoryField::Source));
    }
    let manifest = Manifest {
        source_path: resolve(source.as_str(), manifest_dir),
        dependencies,
        mappings,
        network_allow,
        env: render_entries(&table),
        inherit_cwd,
        inherit_process_name,
        entry_call,
        entry_args,
    };
    Ok(manifest)
}

} // verus!
