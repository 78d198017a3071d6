//! Statements: what the line-oriented parser hands over for one instruction,
//! as plain values, and what each statement means as directives.
//!
//! The parser knows `FROM`, `ENV` and `ENTRYPOINT` by name. Every other
//! instruction reaches this module as a leading word and the rest of its
//! line. The keywords `MAP`, `NET`, `LINK`, `ENV_PWD_IS_HOST_CWD` and
//! `ENV_EXE_NAME_IS_HOST_EXE_NAME` are recognized here, in upper case; a
//! recognized keyword with a malformed operand is a syntax error, and an
//! instruction under any other keyword is ignored.

use vstd::prelude::*;
use vstd::string::*;
use crate::array::{array_of, blank_from, read_array, skip_blanks};
use crate::directive::{Directive, DirectiveView};
use crate::error::CompileError;
use crate::text::{blanks, chars_of, run, same_text, scan_run, slice_of, split_words, words};

verus! {

/// One piece of what was written for a value that may run over several
/// lines: a piece of text, or a comment between the lines.
#[derive(Clone, Debug, PartialEq, Eq)]
pub enum Piece {
    /// Text, as written.
    Text(String),
    /// A comment.
    Comment,
}

/// A piece as contracts see it.
pub enum PieceView {
    Text(Seq<char>),
    Comment,
}

impl DeepView for Piece {
    type V = PieceView;

    open spec fn deep_view(&self) -> PieceView {
        match self {
            Piece::Text(text) => PieceView::Text(text@),
            Piece::Comment => PieceView::Comment,
        }
    }
}

/// One instruction as the parser read it.
#[derive(Clone, Debug, PartialEq, Eq)]
pub enum Statement {
    /// `FROM` with its operand.
    Source(String),
    /// `ENV` with its variables: the key and the pieces of the value.
    Environment(Vec<(String, Vec<Piece>)>),
    /// `ENTRYPOINT` with the pieces of its shell form; `None` for the array
    /// form.
    EntryPoint(Option<Vec<Piece>>),
    /// An instruction the parser has no name for: its leading letters, and
    /// what follows them on the line.
    Other(String, String),
    /// An instruction the parser knows and a manifest has no use for.
    Unsupported,
}

/// A statement as contracts see it.
pub enum StatementView {
    Source(Seq<char>),
    Environment(Seq<(Seq<char>, Seq<PieceView>)>),
    EntryPoint(Option<Seq<PieceView>>),
    Other(Seq<char>, Seq<char>),
    Unsupported,
}

impl DeepView for Statement {
    type V = StatementView;

    open spec fn deep_view(&self) -> StatementView {
        match self {
            Statement::Source(image) => StatementView::Source(image@),
            Statement::Environment(vars) => StatementView::Environment(vars.deep_view()),
            Statement::EntryPoint(form) => StatementView::EntryPoint(form.deep_view()),
            Statement::Other(word, rest) => StatementView::Other(word@, rest@),
            Statement::Unsupported => StatementView::Unsupported,
        }
    }
}

/// The text that counts of a value written in `pieces`: the first piece,
/// where it is text. A value that begins with a comment, or has no piece,
/// counts for nothing.
pub open spec fn first_text(pieces: Seq<PieceView>) -> Option<Seq<char>> {
    if pieces.len() > 0 {
        match pieces[0] {
            PieceView::Text(text) => Some(text),
            PieceView::Comment => None,
        }
    } else {
        None
    }
}

/// The variables of one `ENV`, each with the text that counts of its
/// value.
pub open spec fn valued(vars: Seq<(Seq<char>, Seq<PieceView>)>) -> Seq<
    (Seq<char>, Option<Seq<char>>),
> {
    Seq::new(vars.len(), |i: int| (vars[i].0, first_text(vars[i].1)))
}

/// The text that counts of an `ENTRYPOINT`: that of its shell form.
pub open spec fn entry_text(form: Option<Seq<PieceView>>) -> Option<Seq<char>> {
    match form {
        Some(pieces) => first_text(pieces),
        None => None,
    }
}

/// The assignments that the variables of one `ENV` make, in order. A
/// variable without value assigns nothing.
pub open spec fn assignments(vars: Seq<(Seq<char>, Option<Seq<char>>)>) -> Seq<DirectiveView>
    decreases vars.len(),
{
    if vars.len() == 0 {
        Seq::empty()
    } else {
        match vars.last().1 {
            Some(value) => assignments(vars.drop_last()).push(
                DirectiveView::EnvAssign(vars.last().0, value),
            ),
            None => assignments(vars.drop_last()),
        }
    }
}

/// The entry call that the shell form `text` names: its first token is the
/// function, the others are the arguments. A line without token names none.
pub open spec fn entry_calls(text: Option<Seq<char>>) -> Seq<DirectiveView> {
    match text {
        Some(line) => {
            let tokens = words(line, blanks());
            if tokens.len() == 0 {
                Seq::empty()
            } else {
                seq![DirectiveView::EntryCall(tokens[0], tokens.skip(1))]
            }
        },
        None => Seq::empty(),
    }
}

/// The keyword of an instruction that was read as the leading letters
/// `word` and the rest `rest` of its line: the word and what follows it up
/// to the first blank.
pub open spec fn keyword_of(word: Seq<char>, rest: Seq<char>) -> Seq<char> {
    word + rest.take(run(rest, blanks()) as int)
}

/// What stands behind the keyword.
pub open spec fn operand_of(rest: Seq<char>) -> Seq<char> {
    rest.skip(run(rest, blanks()) as int)
}

/// Whether `operand` suits a flag keyword, which takes none: it holds
/// blanks only.
pub open spec fn no_operand(operand: Seq<char>) -> bool {
    blank_from(operand, 0)
}

/// What an instruction without a name of its own means, or `None` where it
/// is malformed.
pub open spec fn other_meaning(word: Seq<char>, rest: Seq<char>) -> Option<Seq<DirectiveView>> {
    let keyword = keyword_of(word, rest);
    let operand = operand_of(rest);
    if keyword == "MAP"@ {
        match array_of(operand) {
            Some(list) => Some(seq![DirectiveView::Mappings(list)]),
            None => None,
        }
    } else if keyword == "NET"@ {
        match array_of(operand) {
            Some(list) => Some(seq![DirectiveView::NetworkAllow(list)]),
            None => None,
        }
    } else if keyword == "LINK"@ {
        match array_of(operand) {
            Some(list) => Some(seq![DirectiveView::Dependencies(list)]),
            None => None,
        }
    } else if keyword == "ENV_PWD_IS_HOST_CWD"@ {
        if no_operand(operand) {
            Some(seq![DirectiveView::InheritWorkingDirectory])
        } else {
            None
        }
    } else if keyword == "ENV_EXE_NAME_IS_HOST_EXE_NAME"@ {
        if no_operand(operand) {
            Some(seq![DirectiveView::InheritProcessName])
        } else {
            None
        }
    } else {
        Some(Seq::empty())
    }
}

/// The directives that `statement` stands for, or `None` where it is
/// malformed.
pub open spec fn meaning(statement: StatementView) -> Option<Seq<DirectiveView>> {
    match statement {
        StatementView::Source(image) => Some(seq![DirectiveView::Source(image)]),
        StatementView::Environment(vars) => Some(assignments(valued(vars))),
        StatementView::EntryPoint(form) => Some(entry_calls(entry_text(form))),
        StatementView::Other(word, rest) => other_meaning(word, rest),
        StatementView::Unsupported => Some(Seq::empty()),
    }
}

/// The directives that `statements` stand for, in order, or `None` where
/// one of them is malformed.
pub open spec fn directives_of(statements: Seq<StatementView>) -> Option<Seq<DirectiveView>>
    decreases statements.len(),
{
    if statements.len() == 0 {
        Some(Seq::empty())
    } else {
        match (directives_of(statements.drop_last()), meaning(statements.last())) {
            (Some(before), Some(these)) => Some(before + these),
            _ => None,
        }
    }
}

/// The text that counts of a value written in `pieces`.
pub fn choose_text(pieces: &Vec<Piece>) -> (r: Option<String>)
    ensures
        r.deep_view() == first_text(pieces.deep_view()),
{
    if pieces.len() > 0 {
        match &pieces[0] {
            Piece::Text(text) => Some(text.clone()),
            Piece::Comment => None,
        }
    } else {
        None
    }
}

/// The variables of one `ENV`, each with the text that counts of its
/// value.
fn choose_values(vars: &Vec<(String, Vec<Piece>)>) -> (out: Vec<(String, Option<String>)>)
    ensures
        out.deep_view() == valued(vars.deep_view()),
{
    let ghost all = vars.deep_view();
    let mut out: Vec<(String, Option<String>)> = Vec::new();
    let mut i: usize = 0;
    while i < vars.len()
        invariant
            i <= vars.len(),
            all == vars.deep_view(),
            out.deep_view() == valued(all.take(i as int)),
        decreases vars.len() - i,
    {
        let ghost before = out.deep_view();
        let pair = (vars[i].0.clone(), choose_text(&vars[i].1));
        let ghost p = pair.deep_view();
        assert(p == (all[i as int].0, first_text(all[i as int].1)));
        out.push(pair);
        assert(out.deep_view() == before.push(p));
        assert(valued(all.take(i + 1)) == valued(all.take(i as int)).push(p));
        i += 1;
    }
    assert(all.take(vars.len() as int) == all);
    out
}

/// Appends to `out` the assignments of one `ENV`.
fn push_assignments(out: &mut Vec<Directive>, vars: &Vec<(String, Option<String>)>)
    ensures
        final(out).deep_view() == old(out).deep_view() + assignments(vars.deep_view()),
{
    let ghost start = out.deep_view();
    let ghost all = vars.deep_view();
    let mut i: usize = 0;
    assert(start + assignments(all.take(0)) == start);
    while i < vars.len()
        invariant
            i <= vars.len(),
            all == vars.deep_view(),
            out.deep_view() == start + assignments(all.take(i as int)),
        decreases vars.len() - i,
    {
        let ghost before = out.deep_view();
        assert(all.take(i + 1).drop_last() == all.take(i as int));
        assert(all.take(i + 1).last() == vars[i as int].deep_view());
        match &vars[i].1 {
            Some(value) => {
                let directive = Directive::EnvAssign(vars[i].0.clone(), value.clone());
                let ghost d = directive.deep_view();
                out.push(directive);
                assert(out.deep_view() == before.push(d));
                assert(before.push(d) == start + assignments(all.take(i as int)).push(d));
            },
            None => {},
        }
        i += 1;
    }
    assert(all.take(vars.len() as int) == all);
}

/// Appends to `out` the entry call that a shell form names.
fn push_entry_call(out: &mut Vec<Directive>, text: &Option<String>)
    ensures
        final(out).deep_view() == old(out).deep_view() + entry_calls(text.deep_view()),
{
    let ghost start = out.deep_view();
    match text {
        Some(line) => {
            let separators: [char; 2] = [' ', '\t'];
            assert(separators@.to_set() =~= blanks());
            let mut tokens = split_words(line.as_str(), &separators);
            if tokens.len() > 0 {
                let ghost all = tokens.deep_view();
                let name = tokens.remove(0);
                assert(tokens.deep_view() == all.skip(1));
                let directive = Directive::EntryCall(name, tokens);
                let ghost d = directive.deep_view();
                out.push(directive);
                assert(out.deep_view() == start.push(d));
                assert(start.push(d) == start + seq![d]);
            } else {
                assert(start + Seq::<DirectiveView>::empty() == start);
            }
        },
        None => {
            assert(start + Seq::<DirectiveView>::empty() == start);
        },
    }
}

/// Appends `directive` to `out`.
fn push_one(out: &mut Vec<Directive>, directive: Directive)
    ensures
        final(out).deep_view() == old(out).deep_view() + seq![directive.deep_view()],
{
    let ghost start = out.deep_view();
    let ghost d = directive.deep_view();
    out.push(directive);
    assert(out.deep_view() == start.push(d));
    assert(start.push(d) == start + seq![d]);
}

/// Splits what follows the leading letters `word` of a line into the rest
/// of the keyword and the operand.
fn split_keyword(word: &String, rest: &String) -> (r: (String, String))
    ensures
        r.0@ == keyword_of(word@, rest@),
        r.1@ == operand_of(rest@),
{
    let chars = chars_of(rest.as_str());
    let separators: [char; 2] = [' ', '\t'];
    assert(separators@.to_set() =~= blanks());
    assert(chars@.skip(0) == chars@);
    let cut = scan_run(&chars, 0, &separators);
    let mut keyword = word.clone();
    let tail = slice_of(rest.as_str(), 0, cut);
    keyword.append(tail.as_str());
    let operand = slice_of(rest.as_str(), cut, chars.len());
    (keyword, operand)
}

/// Whether only blanks stand in `operand`.
fn check_no_operand(operand: &String) -> (ok: bool)
    ensures
        ok == no_operand(operand@),
{
    let chars = chars_of(operand.as_str());
    skip_blanks(&chars, 0) == chars.len()
}

/// Appends to `out` what an instruction without a name of its own means.
/// Leaves `out` as it was, and fails, where the instruction is malformed.
fn push_other(out: &mut Vec<Directive>, word: &String, rest: &String) -> (ok: bool)
    ensures
        match other_meaning(word@, rest@) {
            Some(these) => ok && final(out).deep_view() == old(out).deep_view() + these,
            None => !ok && final(out).deep_view() == old(out).deep_view(),
        },
{
    let ghost start = out.deep_view();
    let (keyword, operand) = split_keyword(word, rest);
    if same_text(keyword.as_str(), "MAP") {
        match read_array(operand.as_str()) {
            Some(list) => {
                push_one(out, Directive::Mappings(list));
                true
            },
            None => false,
        }
    } else if same_text(keyword.as_str(), "NET") {
        match read_array(operand.as_str()) {
            Some(list) => {
                push_one(out, Directive::NetworkAllow(list));
                true
            },
            None => false,
        }
    } else if same_text(keyword.as_str(), "LINK") {
        match read_array(operand.as_str()) {
            Some(list) => {
                push_one(out, Directive::Dependencies(list));
                true
            },
            None => false,
        }
    } else if same_text(keyword.as_str(), "ENV_PWD_IS_HOST_CWD") {
        if check_no_operand(&operand) {
            push_one(out, Directive::InheritWorkingDirectory);
            true
        } else {
            false
        }
    } else if same_text(keyword.as_str(), "ENV_EXE_NAME_IS_HOST_EXE_NAME") {
        if check_no_operand(&operand) {
            push_one(out, Directive::InheritProcessName);
            true
        } else {
            false
        }
    } else {
        assert(start + Seq::<DirectiveView>::empty() == start);
        true
    }
}

/// The directives that `statements` stand for. Fails with `SyntaxError`
/// exactly where one of them is malformed.
pub fn interpret(statements: &Vec<Statement>) -> (r: Result<Vec<Directive>, CompileError>)
    ensures
        match r {
            Ok(directives) => directives_of(statements.deep_view()) == Some(
                directives.deep_view(),
            ),
            Err(e) => e == CompileError::SyntaxError && directives_of(statements.deep_view())
                is None,
        },
{
    let ghost all = statements.deep_view();
    let mut out: Vec<Directive> = Vec::new();
    let n = statements.len();
    let mut i: usize = 0;
    assert(out.deep_view() == Seq::<DirectiveView>::empty());
    while i < n
        invariant
            n == statements.len(),
            i <= n,
            all == statements.deep_view(),
            directives_of(all.take(i as int)) == Some(out.deep_view()),
        decreases n - i,
    {
        let ghost before = out.deep_view();
        proof {
            assert(all.take(i + 1).drop_last() == all.take(i as int));
            assert(all.take(i + 1).last() == statements[i as int].deep_view());
        }
        match &statements[i] {
            Statement::Source(image) => {
                let directive = Directive::Source(image.clone());
                let ghost d = directive.deep_view();
                out.push(directive);
                assert(out.deep_view() == before.push(d));
                assert(before.push(d) == before + seq![d]);
            },
            Statement::Environment(vars) => {
                let values = choose_values(vars);
                push_assignments(&mut out, &values);
            },
            Statement::EntryPoint(form) => {
                let text = match form {
                    Some(pieces) => choose_text(pieces),
                    None => None,
                };
                push_entry_call(&mut out, &text);
            },
            Statement::Other(word, rest) => {
                if !push_other(&mut out, word, rest) {
                    proof {
                        lemma_malformed_prefix(all, i + 1);
                    }
                    return Err(CompileError::SyntaxError);
                }
            },
            Statement::Unsupported => {
                assert(before + Seq::<DirectiveView>::empty() == before);
            },
        }
        i += 1;
    }
    assert(all.take(n as int) == all);
    Ok(out)
}

/// Statements with a malformed prefix are malformed.
pub proof fn lemma_malformed_prefix(statements: Seq<StatementView>, k: int)
    requires
        0 <= k <= statements.len(),
        directives_of(statements.take(k)) is None,
    ensures
        directives_of(statements) is None,
    decreases statements.len(),
{
    if k < statements.len() {
        assert(statements.drop_last().take(k) == statements.take(k));
        lemma_malformed_prefix(statements.drop_last(), k);
    } else {
        assert(statements.take(k) == statements);
    }
}

} // verus!
