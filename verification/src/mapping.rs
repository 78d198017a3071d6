//! Filesystem and stream mappings. A mapping is written `host:guest`; it is
//! split at its first `:`. A string without separator, or with nothing on
//! one side of it, is no mapping and is dropped without complaint.

use vstd::prelude::*;
use vstd::string::*;
use crate::text::{chars_of, lemma_run, lemma_run_unique, position, scan_run, slice_of};

verus! {

/// The character between the host side and the guest side.
pub open spec fn separator() -> char {
    ':'
}

/// Host and guest side of the mapping written as `raw`, or `None` where
/// `raw` is malformed: it has no separator, or an empty side.
pub open spec fn mapping_of(raw: Seq<char>) -> Option<(Seq<char>, Seq<char>)> {
    let at = position(raw, separator()) as int;
    if 0 < at && at + 1 < raw.len() {
        Some((raw.take(at), raw.skip(at + 1)))
    } else {
        None
    }
}

/// The mappings among `raws`, in order; malformed entries are left out.
pub open spec fn accepted_mappings(raws: Seq<Seq<char>>) -> Seq<(Seq<char>, Seq<char>)>
    decreases raws.len(),
{
    if raws.len() == 0 {
        Seq::empty()
    } else {
        match mapping_of(raws.last()) {
            Some(pair) => accepted_mappings(raws.drop_last()).push(pair),
            None => accepted_mappings(raws.drop_last()),
        }
    }
}

/// How a mapping is written.
pub open spec fn written(pair: (Seq<char>, Seq<char>)) -> Seq<char> {
    pair.0.push(separator()) + pair.1
}

/// A mapping has two non-empty sides, no separator in its host side, and
/// is written as the string it was read from.
pub proof fn lemma_mapping_sound(raw: Seq<char>)
    requires
        mapping_of(raw) is Some,
    ensures
        mapping_of(raw) matches Some(pair) && pair.0.len() > 0 && pair.1.len() > 0
            && !pair.0.contains(separator()) && written(pair) == raw,
{
    lemma_run(raw, set![separator()]);
    let at = position(raw, separator()) as int;
    let pair = mapping_of(raw)->0;
    assert forall|j: int| 0 <= j < pair.0.len() implies pair.0[j] != separator() by {
        assert(pair.0[j] == raw[j]);
    }
    assert(written(pair) =~= raw);
}

/// A string without separator is no mapping.
pub proof fn lemma_no_separator_no_mapping(raw: Seq<char>)
    requires
        !raw.contains(separator()),
    ensures
        mapping_of(raw) is None,
{
    lemma_run(raw, set![separator()]);
    let at = position(raw, separator()) as int;
    if at < raw.len() {
        assert(raw.contains(raw[at]));
    }
}

/// What is written for a mapping reads back as that mapping, provided its
/// host side is non-empty and free of separators and its guest side is
/// non-empty.
pub proof fn lemma_written_reads_back(host: Seq<char>, guest: Seq<char>)
    requires
        host.len() > 0,
        guest.len() > 0,
        !host.contains(separator()),
    ensures
        mapping_of(written((host, guest))) == Some((host, guest)),
{
    let raw = written((host, guest));
    assert forall|j: int| 0 <= j < host.len() implies !set![separator()].contains(
        #[trigger] raw[j],
    ) by {
        assert(raw[j] == host[j]);
        assert(host.contains(host[j]));
    }
    assert(raw[host.len() as int] == separator());
    lemma_run_unique(raw, set![separator()], host.len() as int);
    assert(raw.take(host.len() as int) =~= host);
    assert(raw.skip(host.len() as int + 1) =~= guest);
}

/// Every accepted mapping has two non-empty sides.
pub proof fn lemma_accepted_mappings_sound(raws: Seq<Seq<char>>)
    ensures
        accepted_mappings(raws).len() <= raws.len(),
        forall|i: int|
            0 <= i < accepted_mappings(raws).len() ==> (#[trigger] accepted_mappings(raws)[i]).0.len()
                > 0 && accepted_mappings(raws)[i].1.len() > 0,
    decreases raws.len(),
{
    if raws.len() > 0 {
        lemma_accepted_mappings_sound(raws.drop_last());
        if mapping_of(raws.last()) is Some {
            lemma_mapping_sound(raws.last());
        }
    }
}

/// Splits the mapping written as `raw`.
pub fn split_mapping(raw: &str) -> (r: Option<(String, String)>)
    ensures
        r.deep_view() == mapping_of(raw@),
{
    let chars = chars_of(raw);
    let stops: [char; 1] = [':'];
    assert(stops@.to_set() =~= set![separator()]);
    assert(chars@.skip(0) == chars@);
    let at = scan_run(&chars, 0, &stops);
    if 0 < at && at < chars.len() - 1 {
        let host = slice_of(raw, 0, at);
        let guest = slice_of(raw, at + 1, chars.len());
        assert(host@ == raw@.take(at as int));
        assert(guest@ == raw@.skip(at + 1));
        Some((host, guest))
    } else {
        None
    }
}

/// The mappings among `raws`, in order.
pub fn accept_mappings(raws: &Vec<String>) -> (pairs: Vec<(String, String)>)
    ensures
        pairs.deep_view() == accepted_mappings(raws.deep_view()),
{
    let ghost all = raws.deep_view();
    let mut pairs: Vec<(String, String)> = Vec::new();
    let n = raws.len();
    let mut i: usize = 0;
    while i < n
        invariant
            n == raws.len(),
            i <= n,
            all == raws.deep_view(),
            pairs.deep_view() == accepted_mappings(all.take(i as int)),
        decreases n - i,
    {
        let ghost before = pairs.deep_view();
        assert(all.take(i + 1).drop_last() == all.take(i as int));
        assert(all.take(i + 1).last() == raws[i as int]@);
        match split_mapping(raws[i].as_str()) {
            Some(pair) => {
                let ghost p = pair.deep_view();
                pairs.push(pair);
                assert(pairs.deep_view() == before.push(p));
            },
            None => {},
        }
        i += 1;
    }
    assert(all.take(n as int) == all);
    pairs
}

} // verus!
