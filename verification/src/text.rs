//! Character-level helpers on strings. Contracts speak of a string through
//! its view, the sequence of its characters.

use vstd::prelude::*;
use vstd::string::*;

verus! {

/// The length of the longest prefix of `s` that holds no character of
/// `stops`.
pub open spec fn run(s: Seq<char>, stops: Set<char>) -> nat
    decreases s.len(),
{
    if s.len() == 0 || stops.contains(s[0]) {
        0
    } else {
        1 + run(s.skip(1), stops)
    }
}

/// The position of the first occurrence of `c` in `s`, or `s.len()` where
/// `c` does not occur.
pub open spec fn position(s: Seq<char>, c: char) -> nat {
    run(s, set![c])
}

/// The blank characters that separate tokens on a line.
pub open spec fn blanks() -> Set<char> {
    set![' ', '\t']
}

/// The maximal runs of `s` that hold no character of `seps`, in order.
/// Empty runs are not words: neighbouring separators yield nothing.
pub open spec fn words(s: Seq<char>, seps: Set<char>) -> Seq<Seq<char>>
    decreases s.len(),
{
    if s.len() == 0 {
        Seq::empty()
    } else if seps.contains(s[0]) {
        words(s.skip(1), seps)
    } else {
        let n = run(s, seps) as int;
        proof {
            lemma_run(s, seps);
        }
        seq![s.take(n)] + words(s.skip(n), seps)
    }
}

/// The elements of `parts` in order, with `sep` between neighbours.
pub open spec fn joined(parts: Seq<Seq<char>>, sep: char) -> Seq<char>
    decreases parts.len(),
{
    if parts.len() == 0 {
        Seq::empty()
    } else if parts.len() == 1 {
        parts[0]
    } else {
        joined(parts.drop_last(), sep).push(sep) + parts.last()
    }
}

/// `run` stays within `s`, stops at a character of `stops` unless it reaches
/// the end, and passes over none.
pub proof fn lemma_run(s: Seq<char>, stops: Set<char>)
    ensures
        run(s, stops) <= s.len(),
        run(s, stops) < s.len() ==> stops.contains(s[run(s, stops) as int]),
        forall|j: int| 0 <= j < run(s, stops) ==> !stops.contains(#[trigger] s[j]),
        s.len() > 0 && !stops.contains(s[0]) ==> run(s, stops) >= 1,
    decreases s.len(),
{
    if s.len() == 0 || stops.contains(s[0]) {
    } else {
        let t = s.skip(1);
        lemma_run(t, stops);
        assert forall|j: int| 0 <= j < run(s, stops) implies !stops.contains(#[trigger] s[j]) by {
            if j > 0 {
                assert(t[j - 1] == s[j]);
            }
        }
    }
}

/// A position `k` that passes over no character of `stops` and stands at one,
/// or at the end, is the run's length.
pub proof fn lemma_run_unique(s: Seq<char>, stops: Set<char>, k: int)
    requires
        0 <= k <= s.len(),
        forall|j: int| 0 <= j < k ==> !stops.contains(#[trigger] s[j]),
        k < s.len() ==> stops.contains(s[k]),
    ensures
        run(s, stops) == k,
{
    lemma_run(s, stops);
    let r = run(s, stops) as int;
    if r < k {
        assert(!stops.contains(s[r]));
    } else if k < r {
        assert(stops.contains(s[k]));
    }
}

/// Every word is non-empty and holds no separator.
pub proof fn lemma_words_are_runs(s: Seq<char>, seps: Set<char>)
    ensures
        forall|i: int|
            0 <= i < words(s, seps).len() ==> (#[trigger] words(s, seps)[i]).len() > 0,
        forall|i: int, j: int|
            0 <= i < words(s, seps).len() && 0 <= j < words(s, seps)[i].len() ==> !seps.contains(
                #[trigger] words(s, seps)[i][j],
            ),
    decreases s.len(),
{
    let all = words(s, seps);
    if s.len() == 0 {
        assert(all.len() == 0);
    } else if seps.contains(s[0]) {
        lemma_words_are_runs(s.skip(1), seps);
        assert(all == words(s.skip(1), seps));
    } else {
        lemma_run(s, seps);
        let n = run(s, seps) as int;
        lemma_words_are_runs(s.skip(n), seps);
        let rest = words(s.skip(n), seps);
        assert(all == seq![s.take(n)] + rest);
        assert forall|i: int| 0 <= i < all.len() implies (#[trigger] all[i]).len() > 0 by {
            if i > 0 {
                assert(all[i] == rest[i - 1]);
            }
        }
        assert forall|i: int, j: int| 0 <= i < all.len() && 0 <= j < all[i].len() implies !seps.contains(
            #[trigger] all[i][j],
        ) by {
            if i > 0 {
                assert(all[i] == rest[i - 1]);
            } else {
                assert(all[0][j] == s[j]);
            }
        }
    }
}

/// A run that is followed by a separator is read as a word of its own:
/// the words of `a`, a separator and `b` are those of `a` and those of
/// `b`.
pub proof fn lemma_words_concat(a: Seq<char>, sep: char, b: Seq<char>, seps: Set<char>)
    requires
        seps.contains(sep),
    ensures
        words(a + seq![sep] + b, seps) == words(a, seps) + words(b, seps),
    decreases a.len(),
{
    let whole = a + seq![sep] + b;
    if a.len() == 0 {
        assert(whole.skip(1) =~= b);
        assert(whole[0] == sep);
        assert(words(a, seps) + words(b, seps) =~= words(b, seps));
    } else if seps.contains(a[0]) {
        assert(whole[0] == a[0]);
        assert(whole.skip(1) =~= a.skip(1) + seq![sep] + b);
        lemma_words_concat(a.skip(1), sep, b, seps);
    } else {
        lemma_run(a, seps);
        let n = run(a, seps) as int;
        assert(whole[0] == a[0]);
        assert forall|j: int| 0 <= j < n implies !seps.contains(#[trigger] whole[j]) by {
            assert(whole[j] == a[j]);
        }
        if n < a.len() {
            assert(whole[n] == a[n]);
        } else {
            assert(whole[n] == sep);
        }
        lemma_run_unique(whole, seps, n);
        assert(whole.take(n) =~= a.take(n));
        assert(whole.skip(n) =~= a.skip(n) + seq![sep] + b);
        lemma_words_concat(a.skip(n), sep, b, seps);
        assert(seq![a.take(n)] + (words(a.skip(n), seps) + words(b, seps)) =~= (seq![a.take(n)]
            + words(a.skip(n), seps)) + words(b, seps));
    }
}

/// A non-empty run without separator is one word.
pub proof fn lemma_word_alone(w: Seq<char>, seps: Set<char>)
    requires
        w.len() > 0,
        forall|j: int| 0 <= j < w.len() ==> !seps.contains(#[trigger] w[j]),
    ensures
        words(w, seps) == seq![w],
{
    lemma_run_unique(w, seps, w.len() as int);
    let n = w.len() as int;
    assert(!seps.contains(w[0]));
    assert(w.take(n) =~= w);
    assert(w.skip(n).len() == 0);
    assert(words(w.skip(n), seps) =~= Seq::<Seq<char>>::empty());
    assert(words(w, seps) == seq![w.take(n)] + words(w.skip(n), seps));
    assert(seq![w] + Seq::<Seq<char>>::empty() =~= seq![w]);
}

/// Words joined by a separator are read back as they were: provided each
/// is non-empty and holds no separator.
pub proof fn lemma_joined_words(parts: Seq<Seq<char>>, sep: char, seps: Set<char>)
    requires
        seps.contains(sep),
        forall|i: int| 0 <= i < parts.len() ==> (#[trigger] parts[i]).len() > 0,
        forall|i: int, j: int|
            0 <= i < parts.len() && 0 <= j < parts[i].len() ==> !seps.contains(
                #[trigger] parts[i][j],
            ),
    ensures
        words(joined(parts, sep), seps) == parts,
    decreases parts.len(),
{
    if parts.len() == 0 {
        assert(words(joined(parts, sep), seps) =~= parts);
    } else if parts.len() == 1 {
        lemma_word_alone(parts[0], seps);
        assert(seq![parts[0]] =~= parts);
    } else {
        let init = parts.drop_last();
        let last = parts.last();
        lemma_joined_words(init, sep, seps);
        assert(joined(parts, sep) =~= joined(init, sep) + seq![sep] + last);
        lemma_words_concat(joined(init, sep), sep, last, seps);
        lemma_word_alone(last, seps);
        assert(init + seq![last] =~= parts);
    }
}

/// The characters of `s`, as a vector.
pub fn chars_of(s: &str) -> (v: Vec<char>)
    ensures
        v@ == s@,
{
    let mut v: Vec<char> = Vec::new();
    for c in it: s.chars()
        invariant
            it.seq() == s@,
            v@ == s@.take(it.index() as int),
    {
        v.push(c);
    }
    v
}

/// The characters of `s` from `from` up to, not including, `to`.
pub(crate) fn slice_of(s: &str, from: usize, to: usize) -> (r: String)
    requires
        from <= to <= s@.len(),
    ensures
        r@ == s@.subrange(from as int, to as int),
{
    String::from_str(s.substring_char(from, to))
}

/// Whether `c` is one of `set`.
pub fn is_one_of(set: &[char], c: char) -> (b: bool)
    ensures
        b == set@.to_set().contains(c),
{
    let mut i: usize = 0;
    while i < set.len()
        invariant
            i <= set.len(),
            forall|j: int| 0 <= j < i ==> set@[j] != c,
        decreases set.len() - i,
    {
        if set[i] == c {
            assert(set@.contains(c));
            return true;
        }
        i += 1;
    }
    assert(!set@.contains(c));
    false
}

/// From `start`, the first position at which a character of `stops` stands,
/// or the length of `chars`.
pub(crate) fn scan_run(chars: &Vec<char>, start: usize, stops: &[char]) -> (end: usize)
    requires
        start <= chars.len(),
    ensures
        start <= end <= chars.len(),
        end == start + run(chars@.skip(start as int), stops@.to_set()),
{
    let ghost tail = chars@.skip(start as int);
    let mut i: usize = start;
    while i < chars.len() && !is_one_of(stops, chars[i])
        invariant
            start <= i <= chars.len(),
            tail == chars@.skip(start as int),
            forall|j: int| 0 <= j < i - start ==> !stops@.to_set().contains(#[trigger] tail[j]),
        decreases chars.len() - i,
    {
        i += 1;
    }
    proof {
        lemma_run_unique(tail, stops@.to_set(), i - start);
    }
    i
}

/// The words of `s`: its maximal runs free of the characters of `seps`.
pub fn split_words(s: &str, seps: &[char]) -> (out: Vec<String>)
    ensures
        out.deep_view() == words(s@, seps@.to_set()),
{
    let chars = chars_of(s);
    let n = chars.len();
    let ghost stops = seps@.to_set();
    let mut out: Vec<String> = Vec::new();
    let mut i: usize = 0;
    assert(s@.skip(0) == s@);
    assert(out.deep_view() + words(s@, stops) == words(s@, stops));
    while i < n
        invariant
            chars@ == s@,
            n == chars.len(),
            i <= n,
            stops == seps@.to_set(),
            words(s@, stops) == out.deep_view() + words(s@.skip(i as int), stops),
        decreases n - i,
    {
        let ghost rest = s@.skip(i as int);
        let ghost before = out.deep_view();
        if is_one_of(seps, chars[i]) {
            assert(rest.skip(1) == s@.skip(i + 1));
            i += 1;
        } else {
            let end = scan_run(&chars, i, seps);
            proof {
                lemma_run(rest, stops);
                assert(rest.take(end - i) == s@.subrange(i as int, end as int));
                assert(rest.skip(end - i) == s@.skip(end as int));
            }
            let word = slice_of(s, i, end);
            out.push(word);
            assert(out.deep_view() == before.push(word@));
            assert(before.push(word@) + words(s@.skip(end as int), stops) == before + (seq![
                word@,
            ] + words(s@.skip(end as int), stops)));
            i = end;
        }
    }
    assert(s@.skip(n as int).len() == 0);
    assert(out.deep_view() + Seq::<Seq<char>>::empty() == out.deep_view());
    out
}

/// Whether `a` and `b` hold the same characters.
pub fn same_text(a: &str, b: &str) -> (same: bool)
    ensures
        same == (a@ == b@),
{
    let x = chars_of(a);
    let y = chars_of(b);
    if x.len() != y.len() {
        return false;
    }
    let mut i: usize = 0;
    while i < x.len()
        invariant
            x@ == a@,
            y@ == b@,
            x.len() == y.len(),
            i <= x.len(),
            forall|j: int| 0 <= j < i ==> x@[j] == y@[j],
        decreases x.len() - i,
    {
        if x[i] != y[i] {
            return false;
        }
        i += 1;
    }
    assert(x@ =~= y@);
    true
}

/// A copy of `list`.
pub fn copy_strings(list: &Vec<String>) -> (out: Vec<String>)
    ensures
        out.deep_view() == list.deep_view(),
{
    let mut out: Vec<String> = Vec::new();
    let mut i: usize = 0;
    while i < list.len()
        invariant
            i <= list.len(),
            out.deep_view() == list.deep_view().take(i as int),
        decreases list.len() - i,
    {
        let ghost before = out.deep_view();
        out.push(list[i].clone());
        assert(out.deep_view() == before.push(list[i as int]@));
        i += 1;
    }
    assert(list.deep_view().take(list.len() as int) == list.deep_view());
    out
}

} // verus!
