//! From a manifest's text to its compiled form: tokenize, interpret,
//! locate, compile. What a list of statements compiles to is stated
//! exactly, by [`outcome`]; which statements the parser reads from a text
//! is its own affair.

use vstd::prelude::*;
use crate::compile::{compile, compiled, drafted, lemma_last_wins, lemma_source_present_compiles};
use crate::error::{CompileError, MandatoryField};
use crate::manifest::{Manifest, ManifestView};
use crate::path::{containing_dir, manifest_dir, resolved};
use crate::directive::DirectiveView;
use crate::statement::{interpret, Statement, StatementView};
use crate::syntax::{directives_from, tokenize};

verus! {

/// What the statements of a manifest at `manifest_path` compile to. A
/// syntax error comes first, then the missing source, then a path that has
/// no containing directory.
pub open spec fn outcome(statements: Option<Seq<StatementView>>, manifest_path: Seq<char>) -> Result<
    ManifestView,
    CompileError,
> {
    match directives_from(statements) {
        Err(e) => Err(e),
        Ok(directives) => {
            if drafted(directives).source.len() == 0 {
                Err(CompileError::MissingMandatoryField(MandatoryField::Source))
            } else {
                match containing_dir(manifest_path) {
                    Some(dir) => compiled(directives, dir),
                    None => Err(CompileError::InvalidManifestLocation),
                }
            }
        },
    }
}

/// A manifest of well-formed statements whose last module reference is not
/// empty, at a path that names a file, compiles: to a well-formed manifest
/// whose module is that reference, resolved against the directory of the
/// path.
pub proof fn lemma_well_formed_text_compiles(
    statements: Option<Seq<StatementView>>,
    manifest_path: Seq<char>,
    k: int,
)
    requires
        directives_from(statements) is Ok,
        containing_dir(manifest_path) is Some,
        0 <= k < directives_from(statements)->Ok_0.len(),
        directives_from(statements)->Ok_0[k] matches DirectiveView::Source(path) && path.len() > 0,
        forall|j: int|
            k < j < directives_from(statements)->Ok_0.len() ==> !(
            #[trigger] directives_from(statements)->Ok_0[j] is Source),
    ensures
        outcome(statements, manifest_path) matches Ok(manifest) && manifest.well_formed()
            && manifest.source_path == resolved(
            directives_from(statements)->Ok_0[k]->Source_0,
            containing_dir(manifest_path)->0,
        ),
{
    let directives = directives_from(statements)->Ok_0;
    lemma_last_wins(directives, k);
    lemma_source_present_compiles(directives, containing_dir(manifest_path)->0, k);
}

/// Whether `r` is what `statements` compile to at `manifest_path`.
pub open spec fn compiles_to(
    statements: Option<Seq<StatementView>>,
    manifest_path: Seq<char>,
    r: Result<Manifest, CompileError>,
) -> bool {
    match r {
        Ok(manifest) => outcome(statements, manifest_path) == Ok::<ManifestView, CompileError>(
            manifest@,
        ),
        Err(e) => outcome(statements, manifest_path) == Err::<ManifestView, CompileError>(e),
    }
}

/// Compiles what the parser made of a manifest that stands at
/// `manifest_path`: `statements` is its result, `None` where it reported an
/// error. The module reference is resolved against the directory of
/// `manifest_path`.
pub fn compile_statements(statements: &Option<Vec<Statement>>, manifest_path: &str) -> (r: Result<
    Manifest,
    CompileError,
>)
    ensures
        compiles_to(statements.deep_view(), manifest_path@, r),
        r matches Ok(manifest) ==> manifest@.well_formed(),
{
    let directives = match statements {
        Some(list) => match interpret(list) {
            Ok(directives) => directives,
            Err(e) => {
                return Err(e);
            },
        },
        None => {
            return Err(CompileError::SyntaxError);
        },
    };
    match manifest_dir(manifest_path) {
        Ok(dir) => compile(&directives, dir.as_str()),
        Err(e) => match compile(&directives, "") {
            Ok(_) => Err(e),
            Err(missing) => Err(missing),
        },
    }
}

/// Compiles the manifest `text` that stands at `hermitfile_path`. The text
/// goes to the parser as it is. Whatever the parser made of it, the result
/// is what that compiles to at `hermitfile_path`, and a manifest that comes
/// back is well formed.
pub fn parse_hermitfile(text: &str, hermitfile_path: &str) -> (r: Result<Manifest, CompileError>)
    ensures
        exists|statements: Option<Seq<StatementView>>|
            #[trigger] compiles_to(statements, hermitfile_path@, r),
        r matches Ok(manifest) ==> manifest@.well_formed(),
{
    let statements = tokenize(text);
    let r = compile_statements(&statements, hermitfile_path);
    assert(compiles_to(statements.deep_view(), hermitfile_path@, r));
    r
}

} // verus!
