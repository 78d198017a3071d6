//! The environment of a module: a table from key to value in which a later
//! assignment of a key replaces the earlier one. A key keeps the place of
//! its first assignment, so the table read out depends on the assignments
//! alone.

use vstd::prelude::*;
use vstd::string::*;

verus! {

/// An environment as contracts see it: keys with their values, in order.
pub type Table = Seq<(Seq<char>, Seq<char>)>;

/// The first place at which `key` stands in `table`, or the table's length
/// where it has no entry for `key`.
pub open spec fn place(table: Table, key: Seq<char>) -> nat
    decreases table.len(),
{
    if table.len() == 0 || table[0].0 == key {
        0
    } else {
        1 + place(table.skip(1), key)
    }
}

/// Whether `table` has an entry for `key`.
pub open spec fn has_key(table: Table, key: Seq<char>) -> bool {
    place(table, key) < table.len()
}

/// Whether no key stands twice in `table`.
pub open spec fn distinct_keys(table: Table) -> bool {
    forall|i: int, j: int|
        0 <= i < j < table.len() ==> (#[trigger] table[i]).0 != (#[trigger] table[j]).0
}

/// The value that `table` holds for `key`, where it has one.
pub open spec fn lookup(table: Table, key: Seq<char>) -> Option<Seq<char>> {
    if has_key(table, key) {
        Some(table[place(table, key) as int].1)
    } else {
        None
    }
}

/// `table` after `key` was assigned `value`: the entry of `key` is replaced
/// where there is one, else a new entry comes last.
pub open spec fn assigned(table: Table, key: Seq<char>, value: Seq<char>) -> Table {
    if has_key(table, key) {
        table.update(place(table, key) as int, (key, value))
    } else {
        table.push((key, value))
    }
}

/// The entry `KEY=VALUE`.
pub open spec fn entry(pair: (Seq<char>, Seq<char>)) -> Seq<char> {
    pair.0.push('=') + pair.1
}

/// The entries of `table`, in its order.
pub open spec fn entries(table: Table) -> Seq<Seq<char>> {
    Seq::new(table.len(), |i: int| entry(table[i]))
}

/// `place` stays within the table, stands at `key` unless it reaches the
/// end, and passes over no entry of `key`.
pub proof fn lemma_place(table: Table, key: Seq<char>)
    ensures
        place(table, key) <= table.len(),
        has_key(table, key) ==> table[place(table, key) as int].0 == key,
        forall|j: int| 0 <= j < place(table, key) ==> (#[trigger] table[j]).0 != key,
    decreases table.len(),
{
    if table.len() == 0 || table[0].0 == key {
    } else {
        let rest = table.skip(1);
        lemma_place(rest, key);
        assert forall|j: int| 0 <= j < place(table, key) implies (#[trigger] table[j]).0
            != key by {
            if j > 0 {
                assert(rest[j - 1] == table[j]);
            }
        }
    }
}

/// A position that stands at `key`, or at the end, and passes over no entry
/// of `key` is its place.
pub proof fn lemma_place_unique(table: Table, key: Seq<char>, at: int)
    requires
        0 <= at <= table.len(),
        at < table.len() ==> table[at].0 == key,
        forall|j: int| 0 <= j < at ==> (#[trigger] table[j]).0 != key,
    ensures
        place(table, key) == at,
{
    lemma_place(table, key);
    let p = place(table, key) as int;
    if p < at {
        assert(table[p].0 != key);
    } else if at < p {
        assert(table[at].0 != key);
    }
}

/// Assignment makes `key` hold `value`, leaves every other key as it was,
/// adds an entry only for a key that had none, and keeps keys distinct.
pub proof fn lemma_assigned(table: Table, key: Seq<char>, value: Seq<char>)
    ensures
        lookup(assigned(table, key, value), key) == Some(value),
        forall|other: Seq<char>|
            other != key ==> #[trigger] lookup(assigned(table, key, value), other) == lookup(
                table,
                other,
            ),
        assigned(table, key, value).len() == if has_key(table, key) {
            table.len()
        } else {
            table.len() + 1
        },
        distinct_keys(table) ==> distinct_keys(assigned(table, key, value)),
{
    let after = assigned(table, key, value);
    let at = place(table, key) as int;
    lemma_place(table, key);
    assert(after[at] == (key, value));
    assert(forall|j: int| 0 <= j < after.len() && j != at ==> #[trigger] after[j] == table[j]);
    assert forall|j: int| 0 <= j < at implies (#[trigger] after[j]).0 != key by {
        assert(table[j].0 != key);
    }
    lemma_place_unique(after, key, at);
    assert forall|other: Seq<char>| other != key implies #[trigger] lookup(after, other) == lookup(
        table,
        other,
    ) by {
        lemma_place(table, other);
        let q = place(table, other) as int;
        if q < table.len() {
            assert(q != at);
            assert(after[q] == table[q]);
        }
        assert forall|j: int| 0 <= j < q && j < after.len() implies (#[trigger] after[j]).0
            != other by {
            if j != at {
                assert(table[j].0 != other);
            }
        }
        if q < table.len() {
            lemma_place_unique(after, other, q);
        } else {
            lemma_place_unique(after, other, after.len() as int);
        }
    }
    if distinct_keys(table) {
        assert forall|i: int, j: int| 0 <= i < j < after.len() implies (#[trigger] after[i]).0 != (
        #[trigger] after[j]).0 by {
            if i != at && j != at {
                assert(table[i].0 != table[j].0);
            } else if i == at {
                if has_key(table, key) {
                    assert(table[at].0 != table[j].0);
                }
            } else {
                if has_key(table, key) {
                    assert(table[i].0 != table[at].0);
                } else {
                    assert(table[i].0 != key);
                }
            }
        }
    }
}

/// A key that `table` holds stands in it once, provided no key stands
/// twice, and the entries hold for it the one line `KEY=VALUE` with the
/// value that `table` holds.
pub proof fn lemma_one_entry_for_key(table: Table, key: Seq<char>)
    requires
        distinct_keys(table),
        has_key(table, key),
    ensures
        entries(table)[place(table, key) as int] == entry((key, lookup(table, key)->0)),
        forall|j: int|
            0 <= j < table.len() && (#[trigger] table[j]).0 == key ==> j == place(table, key),
{
    lemma_place(table, key);
    let at = place(table, key) as int;
    assert(table[at] == (key, lookup(table, key)->0));
    assert forall|j: int| 0 <= j < table.len() && (#[trigger] table[j]).0 == key implies j
        == at by {
        if j < at {
            assert(table[j].0 != table[at].0);
        } else if at < j {
            assert(table[at].0 != table[j].0);
        }
    }
}

/// The place of `key` in `table`.
pub fn find_key(table: &Vec<(String, String)>, key: &String) -> (at: usize)
    ensures
        at == place(table.deep_view(), key@),
        at <= table.len(),
{
    let ghost all = table.deep_view();
    let mut i: usize = 0;
    while i < table.len()
        invariant
            i <= table.len(),
            all == table.deep_view(),
            forall|j: int| 0 <= j < i ==> (#[trigger] all[j]).0 != key@,
        decreases table.len() - i,
    {
        if table[i].0 == *key {
            assert(all[i as int].0 == key@);
            proof {
                lemma_place_unique(all, key@, i as int);
            }
            return i;
        }
        assert(all[i as int].0 != key@);
        i += 1;
    }
    proof {
        lemma_place_unique(all, key@, i as int);
    }
    i
}

/// Assigns `value` to `key` in `table`.
pub fn assign(table: &mut Vec<(String, String)>, key: String, value: String)
    ensures
        final(table).deep_view() == assigned(old(table).deep_view(), key@, value@),
{
    let ghost before = table.deep_view();
    let ghost k = key@;
    let ghost v = value@;
    let at = find_key(table, &key);
    if at < table.len() {
        table.set(at, (key, value));
        assert(table.deep_view() == before.update(at as int, (k, v)));
    } else {
        table.push((key, value));
        assert(table.deep_view() == before.push((k, v)));
    }
}

/// The entries of `table`, each written `KEY=VALUE`.
pub fn render_entries(table: &Vec<(String, String)>) -> (out: Vec<String>)
    ensures
        out.deep_view() == entries(table.deep_view()),
{
    proof {
        reveal_strlit("=");
    }
    let ghost all = table.deep_view();
    let mut out: Vec<String> = Vec::new();
    let n = table.len();
    let mut i: usize = 0;
    while i < n
        invariant
            n == table.len(),
            i <= n,
            all == table.deep_view(),
            "="@ == seq!['='],
            out.deep_view() == entries(all.take(i as int)),
        decreases n - i,
    {
        let ghost before = out.deep_view();
        let mut line = table[i].0.clone();
        line.append("=");
        line.append(table[i].1.as_str());
        assert(line@ == entry(all[i as int]));
        out.push(line);
        assert(out.deep_view() == before.push(entry(all[i as int])));
        assert(entries(all.take(i + 1)) == entries(all.take(i as int)).push(entry(all[i as int])));
        i += 1;
    }
    assert(all.take(n as int) == all);
    out
}

} // verus!
