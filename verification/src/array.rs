//! The string-array syntax of the list directives: `[` and `]` around
//! string literals that commas separate, as in `['a:b', "c"]`. Blanks may
//! stand around brackets, literals and commas, and one comma may follow the
//! last literal.
//!
//! A literal stands between two single or two double quotes. Inside it a
//! backslash starts an escape: `\b`, `\t`, `\n`, `\f`, `\r`, `\"`, `\'`,
//! `\\`, and `\u` with four or `\U` with eight hexadecimal digits that give
//! the code of a character. A backslash before anything else, a code that
//! no character bears, and the characters U+0000 and U+001F written as they
//! are make the text no array.

use vstd::prelude::*;
use vstd::string::*;
use crate::text::{blanks, chars_of, lemma_run_unique, run};

verus! {

/// Every character but the blanks.
pub open spec fn non_blanks() -> Set<char> {
    Set::new(|c: char| !blanks().contains(c))
}

/// From `i`, the first position of `s` that holds no blank, or its length.
pub open spec fn after_blanks(s: Seq<char>, i: int) -> int {
    i + run(s.skip(i), non_blanks())
}

/// Whether `c` opens and closes a string literal.
pub open spec fn is_quote(c: char) -> bool {
    c == '\'' || c == '"'
}

/// Whether only blanks stand in `s` from `i` on.
pub open spec fn blank_from(s: Seq<char>, i: int) -> bool {
    after_blanks(s, i) == s.len()
}

/// The character that a backslash and `letter` stand for, where they stand
/// for one.
pub open spec fn escaped(letter: char) -> Option<char> {
    if letter == 'b' {
        Some('\u{8}')
    } else if letter == 't' {
        Some('\t')
    } else if letter == 'n' {
        Some('\n')
    } else if letter == 'f' {
        Some('\u{c}')
    } else if letter == 'r' {
        Some('\r')
    } else if letter == '"' || letter == '\'' || letter == '\\' {
        Some(letter)
    } else {
        None
    }
}

/// The value of `c` as a hexadecimal digit.
pub open spec fn hex_value(c: char) -> Option<int> {
    let n = c as int;
    if 48 <= n <= 57 {
        Some(n - 48)
    } else if 97 <= n <= 102 {
        Some(n - 87)
    } else if 65 <= n <= 70 {
        Some(n - 55)
    } else {
        None
    }
}

/// The number that the four hexadecimal digits at `i` of `s` write.
pub open spec fn hex4(s: Seq<char>, i: int) -> Option<int> {
    if 0 <= i && i + 4 <= s.len() {
        match (hex_value(s[i]), hex_value(s[i + 1]), hex_value(s[i + 2]), hex_value(s[i + 3])) {
            (Some(a), Some(b), Some(c), Some(d)) => Some(4096 * a + 256 * b + 16 * c + d),
            _ => None,
        }
    } else {
        None
    }
}

/// The character that bears the code `n`: every number up to 0x10FFFF is
/// the code of one, but for the surrogates.
pub open spec fn code_point(n: int) -> Option<char> {
    if 0 <= n <= 0xD7FF || 0xE000 <= n <= 0x10FFFF {
        Some(n as char)
    } else {
        None
    }
}

/// The character that the escape at `i` of `s` stands for, where a
/// backslash stands, and the position behind the escape.
pub open spec fn escape_at(s: Seq<char>, i: int) -> Option<(char, int)> {
    if i < 0 || i + 1 >= s.len() {
        None
    } else if s[i + 1] == 'u' {
        match hex4(s, i + 2) {
            Some(n) => match code_point(n) {
                Some(c) => Some((c, i + 6)),
                None => None,
            },
            None => None,
        }
    } else if s[i + 1] == 'U' {
        match (hex4(s, i + 2), hex4(s, i + 6)) {
            (Some(high), Some(low)) => match code_point(65536 * high + low) {
                Some(c) => Some((c, i + 10)),
                None => None,
            },
            _ => None,
        }
    } else {
        match escaped(s[i + 1]) {
            Some(c) => Some((c, i + 2)),
            None => None,
        }
    }
}

/// Whether `c` may stand in a literal as it is.
pub open spec fn is_plain(c: char) -> bool {
    c != '\\' && c != '\u{0}' && c != '\u{1f}'
}

/// What the literal that was opened by `quote` holds behind `seen`, where
/// its text goes on at `i` of `s`, and the position behind its closing
/// quote. `None` where the literal is not closed or holds what it may not.
pub open spec fn literal_from(s: Seq<char>, i: int, quote: char, seen: Seq<char>) -> Option<
    (Seq<char>, int),
>
    decreases s.len() - i,
{
    if i < 0 || i >= s.len() {
        None
    } else if s[i] == quote {
        Some((seen, i + 1))
    } else if s[i] == '\\' {
        match escape_at(s, i) {
            Some((c, next)) => literal_from(s, next, quote, seen.push(c)),
            None => None,
        }
    } else if is_plain(s[i]) {
        literal_from(s, i + 1, quote, seen.push(s[i]))
    } else {
        None
    }
}

/// A literal ends behind where it began, and inside the text.
pub proof fn lemma_literal_ends(s: Seq<char>, i: int, quote: char, seen: Seq<char>)
    ensures
        literal_from(s, i, quote, seen) matches Some((_, after)) ==> i < after <= s.len(),
    decreases s.len() - i,
{
    if i < 0 || i >= s.len() {
    } else if s[i] == quote {
    } else if s[i] == '\\' {
        match escape_at(s, i) {
            Some((c, next)) => {
                lemma_literal_ends(s, next, quote, seen.push(c));
            },
            None => {},
        }
    } else if is_plain(s[i]) {
        lemma_literal_ends(s, i + 1, quote, seen.push(s[i]));
    }
}

/// The elements of the array whose text goes on at `i`, after those in
/// `seen`: at `i` the next literal or the closing bracket is due. `None`
/// where the text is no array.
pub open spec fn elements_from(s: Seq<char>, i: int, seen: Seq<Seq<char>>) -> Option<
    Seq<Seq<char>>,
>
    decreases s.len() - i,
{
    let at = after_blanks(s, i);
    if i < 0 || at >= s.len() {
        None
    } else if s[at] == ']' {
        if blank_from(s, at + 1) {
            Some(seen)
        } else {
            None
        }
    } else if is_quote(s[at]) {
        match literal_from(s, at + 1, s[at], Seq::empty()) {
            Some((element, after)) => {
                let next = after_blanks(s, after);
                proof {
                    lemma_literal_ends(s, at + 1, s[at], Seq::empty());
                }
                if next >= s.len() {
                    None
                } else if s[next] == ',' {
                    elements_from(s, next + 1, seen.push(element))
                } else if s[next] == ']' && blank_from(s, next + 1) {
                    Some(seen.push(element))
                } else {
                    None
                }
            },
            None => None,
        }
    } else {
        None
    }
}

/// The elements of the string array written as `s`, or `None` where `s` is
/// not one.
pub open spec fn array_of(s: Seq<char>) -> Option<Seq<Seq<char>>> {
    let at = after_blanks(s, 0);
    if at < s.len() && s[at] == '[' {
        elements_from(s, at + 1, Seq::empty())
    } else {
        None
    }
}

/// `element` as a literal between single quotes.
pub open spec fn quoted(element: Seq<char>) -> Seq<char> {
    seq!['\''] + element + seq!['\'']
}

/// The text behind the opening bracket of the array of `elements`: the
/// literals with a comma between neighbours, and the closing bracket.
pub open spec fn items_text(elements: Seq<Seq<char>>) -> Seq<char>
    decreases elements.len(),
{
    if elements.len() == 0 {
        seq![']']
    } else if elements.len() == 1 {
        quoted(elements[0]) + seq![']']
    } else {
        quoted(elements[0]) + seq![','] + items_text(elements.skip(1))
    }
}

/// How the array of `elements` is written.
pub open spec fn array_text(elements: Seq<Seq<char>>) -> Seq<char> {
    seq!['['] + items_text(elements)
}

/// Whether every element can stand between single quotes as it is: it
/// holds no single quote and nothing that needs an escape.
pub open spec fn quotable(elements: Seq<Seq<char>>) -> bool {
    forall|i: int, j: int|
        0 <= i < elements.len() && 0 <= j < elements[i].len() ==> is_plain(
            #[trigger] elements[i][j],
        ) && elements[i][j] != '\''
}

/// Where no blank stands at `i`, none is skipped.
proof fn lemma_no_blank_to_skip(s: Seq<char>, i: int)
    requires
        0 <= i <= s.len(),
        i < s.len() ==> s[i] != ' ' && s[i] != '\t',
    ensures
        after_blanks(s, i) == i,
{
    let tail = s.skip(i);
    if i < s.len() {
        assert(tail[0] == s[i]);
        assert(non_blanks().contains(tail[0]));
    }
    lemma_run_unique(tail, non_blanks(), 0);
}

/// Plain text before a single quote reads as a literal that holds it.
proof fn lemma_plain_literal(s: Seq<char>, i: int, n: int, seen: Seq<char>)
    requires
        0 <= i,
        0 <= n,
        i + n < s.len(),
        forall|k: int| i <= k < i + n ==> is_plain(#[trigger] s[k]) && s[k] != '\'',
        s[i + n] == '\'',
    ensures
        literal_from(s, i, '\'', seen) == Some((seen + s.subrange(i, i + n), i + n + 1)),
    decreases n,
{
    if n == 0 {
        assert(seen + s.subrange(i, i) =~= seen);
    } else {
        assert(is_plain(s[i]) && s[i] != '\'');
        lemma_plain_literal(s, i + 1, n - 1, seen.push(s[i]));
        assert(seen.push(s[i]) + s.subrange(i + 1, i + n) =~= seen + s.subrange(i, i + n));
    }
}

/// What stands behind `from` in a text that goes on with the items of
/// `rest` reads as `seen` followed by `rest`.
proof fn lemma_items_read_back(s: Seq<char>, from: int, seen: Seq<Seq<char>>, rest: Seq<Seq<char>>)
    requires
        0 <= from <= s.len(),
        s.skip(from) == items_text(rest),
        quotable(rest),
    ensures
        elements_from(s, from, seen) == Some(seen + rest),
    decreases rest.len(),
{
    let tail = s.skip(from);
    assert(forall|k: int| 0 <= k < tail.len() ==> tail[k] == s[from + k]);
    if rest.len() == 0 {
        assert(tail.len() == 1);
        assert(s[from] == ']');
        lemma_no_blank_to_skip(s, from);
        lemma_no_blank_to_skip(s, from + 1);
        assert(seen + rest == seen);
    } else {
        let element = rest[0];
        let n = element.len() as int;
        let lit = quoted(element);
        assert(lit.len() == n + 2);
        assert(lit[0] == '\'' && lit[n + 1] == '\'');
        assert(forall|k: int| 0 <= k < n ==> lit[k + 1] == element[k]);
        if rest.len() == 1 {
            assert(tail == lit + seq![']']);
        } else {
            assert(tail == lit + seq![','] + items_text(rest.skip(1)));
        }
        assert(tail.len() >= n + 3);
        assert(forall|k: int| 0 <= k < n + 2 ==> tail[k] == lit[k]);
        assert(s[from] == '\'');
        lemma_no_blank_to_skip(s, from);
        let at = from;
        assert forall|k: int| at + 1 <= k < at + 1 + n implies is_plain(#[trigger] s[k]) && s[k]
            != '\'' by {
            assert(s[k] == tail[k - from]);
            assert(tail[k - from] == element[k - from - 1]);
        }
        assert(s[at + 1 + n] == tail[n + 1]);
        lemma_plain_literal(s, at + 1, n, Seq::empty());
        let close = at + 1 + n;
        assert(Seq::<char>::empty() + s.subrange(at + 1, close) =~= element);
        assert(literal_from(s, at + 1, '\'', Seq::empty()) == Some((element, close + 1)));
        assert(s[close + 1] == tail[n + 2]);
        if rest.len() == 1 {
            assert(tail[n + 2] == ']');
            assert(tail.len() == n + 3);
            lemma_no_blank_to_skip(s, close + 1);
            lemma_no_blank_to_skip(s, close + 2);
            assert(seen.push(element) =~= seen + rest);
        } else {
            assert(tail[n + 2] == ',');
            lemma_no_blank_to_skip(s, close + 1);
            let next = close + 1;
            let more = rest.skip(1);
            assert(s.skip(next + 1) =~= items_text(more)) by {
                let after = items_text(more);
                assert(tail =~= lit + seq![','] + after);
                assert(s.skip(next + 1) =~= tail.skip(n + 3));
                assert(tail.skip(n + 3) =~= after);
            }
            assert forall|i: int, j: int| 0 <= i < more.len() && 0 <= j < more[i].len() implies is_plain(
                #[trigger] more[i][j],
            ) && more[i][j] != '\'' by {
                assert(more[i] == rest[i + 1]);
            }
            lemma_items_read_back(s, next + 1, seen.push(element), more);
            assert(seen.push(element) + more =~= seen + rest);
        }
    }
}

/// An array reads back as it was written: the text of `elements`, written
/// between single quotes, is an array and holds just them.
pub proof fn lemma_array_reads_back(elements: Seq<Seq<char>>)
    requires
        quotable(elements),
    ensures
        array_of(array_text(elements)) == Some(elements),
{
    let s = array_text(elements);
    assert(s[0] == '[');
    lemma_no_blank_to_skip(s, 0);
    assert(s.skip(1) =~= items_text(elements));
    lemma_items_read_back(s, 1, Seq::empty(), elements);
    assert(Seq::<Seq<char>>::empty() + elements =~= elements);
}

/// Calls `char::from_u32`. Trusted: it gives the character that bears the
/// code, and `None` for a number that is the code of none.
#[verifier::external_body]
fn character_of(code: u32) -> (r: Option<char>)
    ensures
        r == code_point(code as int),
{
    char::from_u32(code)
}

/// Calls `String::push`. Trusted: the character is appended.
#[verifier::external_body]
fn push_character(text: &mut String, c: char)
    ensures
        final(text)@ == old(text)@.push(c),
{
    text.push(c)
}

/// From `start`, the first position of `chars` that holds no blank.
pub(crate) fn skip_blanks(chars: &Vec<char>, start: usize) -> (at: usize)
    requires
        start <= chars.len(),
    ensures
        start <= at <= chars.len(),
        at == after_blanks(chars@, start as int),
{
    let ghost tail = chars@.skip(start as int);
    let mut i: usize = start;
    while i < chars.len() && (chars[i] == ' ' || chars[i] == '\t')
        invariant
            start <= i <= chars.len(),
            tail == chars@.skip(start as int),
            forall|j: int| 0 <= j < i - start ==> !non_blanks().contains(#[trigger] tail[j]),
        decreases chars.len() - i,
    {
        i += 1;
    }
    proof {
        lemma_run_unique(tail, non_blanks(), i - start);
    }
    i
}

/// The character that a backslash and `letter` stand for.
fn read_escaped(letter: char) -> (r: Option<char>)
    ensures
        r == escaped(letter),
{
    if letter == 'b' {
        Some('\u{8}')
    } else if letter == 't' {
        Some('\t')
    } else if letter == 'n' {
        Some('\n')
    } else if letter == 'f' {
        Some('\u{c}')
    } else if letter == 'r' {
        Some('\r')
    } else if letter == '"' || letter == '\'' || letter == '\\' {
        Some(letter)
    } else {
        None
    }
}

/// The value of `c` as a hexadecimal digit.
fn read_hex_digit(c: char) -> (r: Option<u32>)
    ensures
        match r {
            Some(value) => hex_value(c) == Some(value as int) && value < 16,
            None => hex_value(c) is None,
        },
{
    let n: u32 = c as u32;
    if 48 <= n && n <= 57 {
        Some(n - 48)
    } else if 97 <= n && n <= 102 {
        Some(n - 87)
    } else if 65 <= n && n <= 70 {
        Some(n - 55)
    } else {
        None
    }
}

/// The number that the four hexadecimal digits at `i` of `chars` write.
fn read_hex4(chars: &Vec<char>, i: usize) -> (r: Option<u32>)
    ensures
        match r {
            Some(value) => hex4(chars@, i as int) == Some(value as int) && value < 65536,
            None => hex4(chars@, i as int) is None,
        },
{
    if chars.len() < 4 || i > chars.len() - 4 {
        return None;
    }
    let a = read_hex_digit(chars[i]);
    let b = read_hex_digit(chars[i + 1]);
    let c = read_hex_digit(chars[i + 2]);
    let d = read_hex_digit(chars[i + 3]);
    match (a, b, c, d) {
        (Some(a), Some(b), Some(c), Some(d)) => Some(4096 * a + 256 * b + 16 * c + d),
        _ => None,
    }
}

/// The character that the escape at `i` of `chars` stands for, and the
/// position behind the escape.
fn read_escape(chars: &Vec<char>, i: usize) -> (r: Option<(char, usize)>)
    requires
        i < chars.len(),
    ensures
        match r {
            Some((c, next)) => escape_at(chars@, i as int) == Some((c, next as int)) && i < next
                <= chars.len(),
            None => escape_at(chars@, i as int) is None,
        },
{
    if i + 1 >= chars.len() {
        return None;
    }
    let letter = chars[i + 1];
    if letter == 'u' {
        match read_hex4(chars, i + 2) {
            Some(code) => match character_of(code) {
                Some(c) => Some((c, i + 6)),
                None => None,
            },
            None => None,
        }
    } else if letter == 'U' {
        match read_hex4(chars, i + 2) {
            Some(high) => match read_hex4(chars, i + 6) {
                Some(low) => match character_of(65536 * high + low) {
                    Some(c) => Some((c, i + 10)),
                    None => None,
                },
                None => None,
            },
            None => None,
        }
    } else {
        match read_escaped(letter) {
            Some(c) => Some((c, i + 2)),
            None => None,
        }
    }
}

/// What the literal that was opened by `quote` before `start` holds, and
/// the position behind its closing quote.
fn read_literal(chars: &Vec<char>, start: usize, quote: char) -> (r: Option<(String, usize)>)
    requires
        start <= chars.len(),
    ensures
        match r {
            Some((text, after)) => literal_from(chars@, start as int, quote, Seq::empty())
                == Some((text@, after as int)) && start < after <= chars.len(),
            None => literal_from(chars@, start as int, quote, Seq::empty()) is None,
        },
{
    let mut text = String::new();
    let mut i: usize = start;
    while i < chars.len()
        invariant
            start <= i <= chars.len(),
            literal_from(chars@, start as int, quote, Seq::empty()) == literal_from(
                chars@,
                i as int,
                quote,
                text@,
            ),
        decreases chars.len() - i,
    {
        let c = chars[i];
        if c == quote {
            return Some((text, i + 1));
        } else if c == '\\' {
            match read_escape(chars, i) {
                Some((escaped, next)) => {
                    push_character(&mut text, escaped);
                    i = next;
                },
                None => {
                    return None;
                },
            }
        } else if c == '\u{0}' || c == '\u{1f}' {
            return None;
        } else {
            push_character(&mut text, c);
            i += 1;
        }
    }
    None
}

/// Reads the string array written as `text`.
pub fn read_array(text: &str) -> (r: Option<Vec<String>>)
    ensures
        r.deep_view() == array_of(text@),
{
    let chars = chars_of(text);
    let n = chars.len();
    let open = skip_blanks(&chars, 0);
    if open >= n || chars[open] != '[' {
        return None;
    }
    let mut seen: Vec<String> = Vec::new();
    let mut i: usize = open + 1;
    assert(seen.deep_view() == Seq::<Seq<char>>::empty());
    loop
        invariant
            chars@ == text@,
            n == chars.len(),
            i <= n,
            array_of(text@) == elements_from(text@, i as int, seen.deep_view()),
        decreases n - i,
    {
        let ghost before = seen.deep_view();
        let at = skip_blanks(&chars, i);
        if at >= n {
            return None;
        }
        let c = chars[at];
        if c == ']' {
            let end = skip_blanks(&chars, at + 1);
            if end == n {
                return Some(seen);
            }
            return None;
        }
        if !(c == '\'' || c == '"') {
            return None;
        }
        let (element, after) = match read_literal(&chars, at + 1, c) {
            Some(found) => found,
            None => {
                return None;
            },
        };
        let next = skip_blanks(&chars, after);
        if next >= n {
            return None;
        }
        let ghost e = element@;
        seen.push(element);
        assert(seen.deep_view() == before.push(e));
        if chars[next] == ',' {
            i = next + 1;
        } else if chars[next] == ']' {
            let end = skip_blanks(&chars, next + 1);
            if end == n {
                return Some(seen);
            }
            return None;
        } else {
            return None;
        }
    }
}

} // verus!
