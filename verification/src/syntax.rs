//! The bridge to the line-oriented parser of the `dockerfile_parser` crate,
//! which tokenizes a manifest's text. The parsed document is carried
//! through as an opaque value and read out, statement by statement, into
//! plain values; what the statements mean is decided in
//! [`crate::statement`].
//!
//! What the parser makes of a text is not proved here, and not named
//! either: whether it accepts a text also depends on the stack and the call
//! budget that it finds. The functions of this module state what holds of
//! whatever it hands back. What becomes of a given list of statements is
//! stated exactly, by [`crate::statement::interpret`].

use vstd::prelude::*;
use dockerfile_parser::{BreakableStringComponent, Dockerfile, Instruction, ShellOrExecExpr};
use crate::directive::{Directive, DirectiveView};
use crate::error::CompileError;
use crate::statement::{directives_of, interpret, Piece, PieceView, Statement, StatementView};

verus! {

/// The parsed document of `dockerfile_parser`, carried through as an opaque value.
#[verifier::external_type_specification]
#[verifier::external_body]
pub struct ExDockerfile(dockerfile_parser::Dockerfile);

/// The parsing error of `dockerfile_parser`, carried through as an opaque value.
#[verifier::external_type_specification]
#[verifier::external_body]
pub struct ExParseError(dockerfile_parser::Error);

/// The statements that a parsed document holds, in the order of its
/// `instructions`.
pub uninterp spec fn statements_in(document: Dockerfile) -> Seq<StatementView>;

/// What `statement_head` hands over of a statement: all of it, but for the
/// variables of an `ENV`, of which it gives the number, and the pieces of
/// the shell form of an `ENTRYPOINT`, of which it gives the number.
pub enum Head {
    Source(String),
    Environment(usize),
    EntryPoint(Option<usize>),
    Other(String, String),
    Unsupported,
}

/// Whether `head` is the head of `statement`.
pub open spec fn heads(head: Head, statement: StatementView) -> bool {
    match head {
        Head::Source(image) => statement == StatementView::Source(image@),
        Head::Environment(count) => statement matches StatementView::Environment(vars)
            && vars.len() == count,
        Head::EntryPoint(Some(count)) => statement matches StatementView::EntryPoint(
            Some(pieces),
        ) && pieces.len() == count,
        Head::EntryPoint(None) => statement == StatementView::EntryPoint(None),
        Head::Other(word, rest) => statement == StatementView::Other(word@, rest@),
        Head::Unsupported => statement is Unsupported,
    }
}

/// Whether `statement` is an `ENV` with a variable at `j`.
pub open spec fn has_variable(statement: StatementView, j: int) -> bool {
    statement matches StatementView::Environment(vars) && 0 <= j < vars.len()
}

/// The variable at `j` of the `ENV` `statement`.
pub open spec fn variable(statement: StatementView, j: int) -> (Seq<char>, Seq<PieceView>) {
    statement->Environment_0[j]
}

/// Whether `statement` is an `ENTRYPOINT` in shell form with a piece at
/// `k`.
pub open spec fn has_entry_piece(statement: StatementView, k: int) -> bool {
    statement matches StatementView::EntryPoint(Some(pieces)) && 0 <= k < pieces.len()
}

/// Calls `dockerfile_parser::Dockerfile::parse`. Nothing is claimed of
/// what it returns for a text.
#[verifier::external_body]
fn parse_document(text: &str) -> (r: Result<Dockerfile, dockerfile_parser::Error>) {
    Dockerfile::parse(text)
}

/// Reads the length of `Dockerfile::instructions`. Trusted: it is the
/// number of statements in the document.
#[verifier::external_body]
fn statement_count(document: &Dockerfile) -> (count: usize)
    ensures
        count == statements_in(*document).len(),
{
    document.instructions.len()
}

/// Reads the `Instruction` at `i` of `Dockerfile::instructions`. Trusted:
/// `From` gives its image as written, `Env` the number of its variables,
/// `Entrypoint` the number of components of its shell form and `None` for
/// its array form, `Misc` its instruction word and its arguments as
/// `Display` joins them, and every other variant is `Unsupported`.
#[verifier::external_body]
fn statement_head(document: &Dockerfile, i: usize) -> (head: Head)
    requires
        i < statements_in(*document).len(),
    ensures
        heads(head, statements_in(*document)[i as int]),
{
    match &document.instructions[i] {
        Instruction::From(from) => Head::Source(from.image.content.clone()),
        Instruction::Env(env) => Head::Environment(env.vars.len()),
        Instruction::Entrypoint(entry) => match &entry.expr {
            ShellOrExecExpr::Shell(shell) => Head::EntryPoint(Some(shell.components.len())),
            ShellOrExecExpr::Exec(_) => Head::EntryPoint(None),
        },
        Instruction::Misc(misc) => Head::Other(
            misc.instruction.content.clone(),
            misc.arguments.to_string(),
        ),
        _ => Head::Unsupported,
    }
}

/// Reads the key of the `EnvVar` at `j` of the `EnvInstruction` at `i`, and
/// the number of components of its value. Trusted: they are the key and
/// the number of pieces of that variable.
#[verifier::external_body]
fn variable_head(document: &Dockerfile, i: usize, j: usize) -> (head: (String, usize))
    requires
        i < statements_in(*document).len(),
        has_variable(statements_in(*document)[i as int], j as int),
    ensures
        head.0@ == variable(statements_in(*document)[i as int], j as int).0,
        head.1 == variable(statements_in(*document)[i as int], j as int).1.len(),
{
    match &document.instructions[i] {
        Instruction::Env(env) => (
            env.vars[j].key.content.clone(),
            env.vars[j].value.components.len(),
        ),
        _ => (String::new(), 0),
    }
}

/// Reads the component at `k` of the value of the `EnvVar` at `j` of the
/// `EnvInstruction` at `i`. Trusted: a string component is a piece of
/// text with its content, a comment component a comment.
#[verifier::external_body]
fn variable_piece(document: &Dockerfile, i: usize, j: usize, k: usize) -> (piece: Piece)
    requires
        i < statements_in(*document).len(),
        has_variable(statements_in(*document)[i as int], j as int),
        k < variable(statements_in(*document)[i as int], j as int).1.len(),
    ensures
        piece.deep_view() == variable(statements_in(*document)[i as int], j as int).1[k as int],
{
    match &document.instructions[i] {
        Instruction::Env(env) => match &env.vars[j].value.components[k] {
            BreakableStringComponent::String(text) => Piece::Text(text.content.clone()),
            BreakableStringComponent::Comment(_) => Piece::Comment,
        },
        _ => Piece::Comment,
    }
}

/// Reads the component at `k` of the shell form of the
/// `EntrypointInstruction` at `i`. Trusted: as for `variable_piece`.
#[verifier::external_body]
fn entry_piece(document: &Dockerfile, i: usize, k: usize) -> (piece: Piece)
    requires
        i < statements_in(*document).len(),
        has_entry_piece(statements_in(*document)[i as int], k as int),
    ensures
        piece.deep_view() == statements_in(*document)[i as int]->EntryPoint_0->0[k as int],
{
    match &document.instructions[i] {
        Instruction::Entrypoint(entry) => match &entry.expr {
            ShellOrExecExpr::Shell(shell) => match &shell.components[k] {
                BreakableStringComponent::String(text) => Piece::Text(text.content.clone()),
                BreakableStringComponent::Comment(_) => Piece::Comment,
            },
            ShellOrExecExpr::Exec(_) => Piece::Comment,
        },
        _ => Piece::Comment,
    }
}

/// The pieces of the value of the variable at `j` of the `ENV` statement
/// at `i`.
fn read_value(document: &Dockerfile, i: usize, j: usize, count: usize) -> (pieces: Vec<Piece>)
    requires
        i < statements_in(*document).len(),
        has_variable(statements_in(*document)[i as int], j as int),
        count == variable(statements_in(*document)[i as int], j as int).1.len(),
    ensures
        pieces.deep_view() == variable(statements_in(*document)[i as int], j as int).1,
{
    let ghost all = variable(statements_in(*document)[i as int], j as int).1;
    let mut pieces: Vec<Piece> = Vec::new();
    let mut k: usize = 0;
    while k < count
        invariant
            k <= count,
            i < statements_in(*document).len(),
            has_variable(statements_in(*document)[i as int], j as int),
            all == variable(statements_in(*document)[i as int], j as int).1,
            all.len() == count,
            pieces.deep_view() == all.take(k as int),
        decreases count - k,
    {
        let ghost before = pieces.deep_view();
        let piece = variable_piece(document, i, j, k);
        pieces.push(piece);
        assert(pieces.deep_view() == before.push(all[k as int]));
        k += 1;
    }
    assert(all.take(count as int) == all);
    pieces
}

/// The pieces of the shell form of the `ENTRYPOINT` statement at `i`.
fn read_entry(document: &Dockerfile, i: usize, count: usize) -> (pieces: Vec<Piece>)
    requires
        i < statements_in(*document).len(),
        statements_in(*document)[i as int] matches StatementView::EntryPoint(Some(all))
            && all.len() == count,
    ensures
        statements_in(*document)[i as int] == StatementView::EntryPoint(Some(pieces.deep_view())),
{
    let ghost all = statements_in(*document)[i as int]->EntryPoint_0->0;
    let mut pieces: Vec<Piece> = Vec::new();
    let mut k: usize = 0;
    while k < count
        invariant
            k <= count,
            i < statements_in(*document).len(),
            statements_in(*document)[i as int] == StatementView::EntryPoint(Some(all)),
            all.len() == count,
            pieces.deep_view() == all.take(k as int),
        decreases count - k,
    {
        let ghost before = pieces.deep_view();
        let piece = entry_piece(document, i, k);
        pieces.push(piece);
        assert(pieces.deep_view() == before.push(all[k as int]));
        k += 1;
    }
    assert(all.take(count as int) == all);
    pieces
}

/// The variables of the `ENV` statement at `i`.
fn read_environment(document: &Dockerfile, i: usize, count: usize) -> (vars: Vec<
    (String, Vec<Piece>),
>)
    requires
        i < statements_in(*document).len(),
        statements_in(*document)[i as int] matches StatementView::Environment(all) && all.len()
            == count,
    ensures
        statements_in(*document)[i as int] == StatementView::Environment(vars.deep_view()),
{
    let ghost all = statements_in(*document)[i as int]->Environment_0;
    let mut vars: Vec<(String, Vec<Piece>)> = Vec::new();
    let mut j: usize = 0;
    while j < count
        invariant
            j <= count,
            i < statements_in(*document).len(),
            statements_in(*document)[i as int] == StatementView::Environment(all),
            all.len() == count,
            vars.deep_view() == all.take(j as int),
        decreases count - j,
    {
        let ghost before = vars.deep_view();
        let (key, pieces) = variable_head(document, i, j);
        let value = read_value(document, i, j, pieces);
        let var = (key, value);
        assert(var.deep_view() == all[j as int]);
        vars.push(var);
        assert(vars.deep_view() == before.push(all[j as int]));
        j += 1;
    }
    assert(all.take(count as int) == all);
    vars
}

/// The statements of `document`, as plain values.
fn read_statements(document: &Dockerfile) -> (statements: Vec<Statement>)
    ensures
        statements.deep_view() == statements_in(*document),
{
    let ghost all = statements_in(*document);
    let count = statement_count(document);
    let mut statements: Vec<Statement> = Vec::new();
    let mut i: usize = 0;
    while i < count
        invariant
            i <= count,
            count == all.len(),
            all == statements_in(*document),
            statements.deep_view() == all.take(i as int),
        decreases count - i,
    {
        let ghost before = statements.deep_view();
        let statement = match statement_head(document, i) {
            Head::Source(image) => Statement::Source(image),
            Head::Environment(vars) => Statement::Environment(
                read_environment(document, i, vars),
            ),
            Head::EntryPoint(Some(pieces)) => Statement::EntryPoint(
                Some(read_entry(document, i, pieces)),
            ),
            Head::EntryPoint(None) => Statement::EntryPoint(None),
            Head::Other(word, rest) => Statement::Other(word, rest),
            Head::Unsupported => Statement::Unsupported,
        };
        assert(statement.deep_view() == all[i as int]);
        statements.push(statement);
        assert(statements.deep_view() == before.push(all[i as int]));
        i += 1;
    }
    assert(all.take(count as int) == all);
    statements
}

/// The statements that the parser reads from the manifest `text`, or
/// `None` where it reports an error.
pub fn tokenize(text: &str) -> (r: Option<Vec<Statement>>) {
    match parse_document(text) {
        Ok(document) => Some(read_statements(&document)),
        Err(_) => None,
    }
}

/// What becomes of the parser's result: the directives that the statements
/// stand for, and `SyntaxError` where the parser reported an error or a
/// statement is malformed.
pub open spec fn directives_from(statements: Option<Seq<StatementView>>) -> Result<
    Seq<DirectiveView>,
    CompileError,
> {
    match statements {
        Some(list) => match directives_of(list) {
            Some(directives) => Ok(directives),
            None => Err(CompileError::SyntaxError),
        },
        None => Err(CompileError::SyntaxError),
    }
}

/// Whether `r` is what becomes of `statements`.
pub open spec fn parses_to(
    statements: Option<Seq<StatementView>>,
    r: Result<Vec<Directive>, CompileError>,
) -> bool {
    match r {
        Ok(directives) => directives_from(statements) == Ok::<Seq<DirectiveView>, CompileError>(
            directives.deep_view(),
        ),
        Err(e) => directives_from(statements) == Err::<Seq<DirectiveView>, CompileError>(e),
    }
}

/// What becomes of the parser's result `statements`, exactly.
pub fn directives_of_statements(statements: &Option<Vec<Statement>>) -> (r: Result<
    Vec<Directive>,
    CompileError,
>)
    ensures
        parses_to(statements.deep_view(), r),
{
    match statements {
        Some(list) => interpret(list),
        None => Err(CompileError::SyntaxError),
    }
}

/// The directives of the manifest `text`, in the order in which they
/// stand. Whatever the parser made of the text, the result is what becomes
/// of it: the only error is `SyntaxError`, and directives that come back
/// are those of some list of statements.
pub fn parse(text: &str) -> (r: Result<Vec<Directive>, CompileError>)
    ensures
        exists|statements: Option<Seq<StatementView>>| #[trigger] parses_to(statements, r),
        r matches Err(e) ==> e == CompileError::SyntaxError,
{
    let statements = tokenize(text);
    let r = directives_of_statements(&statements);
    assert(parses_to(statements.deep_view(), r));
    r
}

} // verus!
