use vstd::prelude::*;
use vstd::string::StringExecFns;
use crate::text::{spec_split, spec_trim, split_str, str_eq, trim};

verus! {

/// The (name, value) reading of one `name=value` piece: the text before
/// the first `=` and the text between the first and second `=`, both
/// trimmed. A piece without `=` yields nothing.
pub open spec fn spec_pair_of(piece: Seq<char>) -> Option<(Seq<char>, Seq<char>)> {
    let segs = spec_split(piece, '=');
    if segs.len() >= 2 {
        Some((spec_trim(segs[0]), spec_trim(segs[1])))
    } else {
        None
    }
}

/// The pairs read from a sequence of pieces, skipping pieces without `=`.
pub open spec fn spec_collect_pairs(pieces: Seq<Seq<char>>) -> Seq<(Seq<char>, Seq<char>)>
    decreases pieces.len(),
{
    if pieces.len() == 0 {
        Seq::empty()
    } else {
        spec_collect_pairs(pieces.drop_last()) + match spec_pair_of(pieces.last()) {
            Some(p) => seq![p],
            None => Seq::empty(),
        }
    }
}

/// The (name, value) pairs of a `name=value` list separated by `sep`,
/// such as a query string (`&`) or a `Cookie` header (`;`).
pub open spec fn spec_parse_pairs(s: Seq<char>, sep: char) -> Seq<(Seq<char>, Seq<char>)> {
    spec_collect_pairs(spec_split(s, sep))
}

/// The value bound to `key` among `pairs`, the last binding winning, as a
/// hash-table built from the pairs in order would resolve it. Keys compare
/// character-exactly.
pub open spec fn spec_pairs_lookup(
    pairs: Seq<(Seq<char>, Seq<char>)>,
    key: Seq<char>,
) -> Option<Seq<char>>
    decreases pairs.len(),
{
    if pairs.len() == 0 {
        None
    } else if pairs.last().0 == key {
        Some(pairs.last().1)
    } else {
        spec_pairs_lookup(pairs.drop_last(), key)
    }
}

/// Collecting pairs distributes over concatenation of piece lists.
pub proof fn lemma_collect_pairs_concat(p1: Seq<Seq<char>>, p2: Seq<Seq<char>>)
    ensures
        spec_collect_pairs(p1 + p2) == spec_collect_pairs(p1) + spec_collect_pairs(p2),
    decreases p2.len(),
{
    if p2.len() == 0 {
        assert(p1 + p2 =~= p1);
        assert(spec_collect_pairs(p1) + spec_collect_pairs(p2) =~= spec_collect_pairs(p1));
    } else {
        lemma_collect_pairs_concat(p1, p2.drop_last());
        assert((p1 + p2).drop_last() =~= p1 + p2.drop_last());
        assert((p1 + p2).last() == p2.last());
        assert(spec_collect_pairs(p1 + p2) =~= spec_collect_pairs(p1) + spec_collect_pairs(p2));
    }
}

/// Parses a `name=value` list separated by `sep` into its pairs, in order.
pub fn parse_pairs(s: &str, sep: char) -> (r: Vec<(String, String)>)
    ensures
        r.deep_view() == spec_parse_pairs(s@, sep),
{
    let pieces = split_str(s, sep);
    let ghost pdv = pieces.deep_view();
    let mut out: Vec<(String, String)> = Vec::new();
    let n = pieces.len();
    proof {
        assert(pdv.take(0) =~= Seq::<Seq<char>>::empty());
        assert(out.deep_view() =~= spec_collect_pairs(pdv.take(0)));
    }
    let mut i: usize = 0;
    while i < n
        invariant
            i <= n,
            n == pieces.len(),
            pdv == pieces.deep_view(),
            out.deep_view() == spec_collect_pairs(pdv.take(i as int)),
        decreases n - i,
    {
        let segs = split_str(pieces[i].as_str(), '=');
        let ghost odv = out.deep_view();
        if segs.len() >= 2 {
            let name = trim(segs[0].as_str());
            let value = trim(segs[1].as_str());
            out.push((String::from_str(name), String::from_str(value)));
            proof {
                assert(out.deep_view() =~= odv.push(
                    (spec_trim(segs.deep_view()[0]), spec_trim(segs.deep_view()[1])),
                ));
            }
        }
        proof {
            assert(pdv.take(i as int + 1).drop_last() =~= pdv.take(i as int));
            assert(pdv.take(i as int + 1).last() == pdv[i as int]);
            assert(out.deep_view() =~= spec_collect_pairs(pdv.take(i as int + 1)));
        }
        i = i + 1;
    }
    proof {
        assert(pdv.take(n as int) =~= pdv);
    }
    out
}

/// Looks `key` up among `pairs`, the last binding winning.
pub fn pairs_lookup(pairs: &Vec<(String, String)>, key: &str) -> (r: Option<String>)
    ensures
        r.deep_view() == spec_pairs_lookup(pairs.deep_view(), key@),
{
    let ghost dv = pairs.deep_view();
    let mut i: usize = pairs.len();
    proof {
        assert(dv.take(pairs.len() as int) =~= dv);
    }
    while i > 0
        invariant
            i <= pairs.len(),
            dv == pairs.deep_view(),
            spec_pairs_lookup(dv, key@) == spec_pairs_lookup(dv.take(i as int), key@),
        decreases i,
    {
        proof {
            assert(dv.take(i as int).last() == dv[i as int - 1]);
            assert(dv.take(i as int).drop_last() =~= dv.take(i as int - 1));
        }
        if str_eq(pairs[i - 1].0.as_str(), key) {
            return Some(pairs[i - 1].1.clone());
        }
        i = i - 1;
    }
    None
}

} // verus!
