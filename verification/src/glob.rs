use vstd::prelude::*;
use vstd::string::StrSliceExecFns;

verus! {

/// Whether the glob pattern `p` matches the whole of `s`. The two-character
/// sequence `**` matches any (possibly empty) character sequence; every
/// other pattern character matches itself only. The match is anchored at
/// both ends: a pattern without `**` matches exactly its own text.
pub open spec fn spec_glob_match(p: Seq<char>, s: Seq<char>) -> bool
    decreases p.len(), s.len(),
{
    if p.len() == 0 {
        s.len() == 0
    } else if p.len() >= 2 && p[0] == '*' && p[1] == '*' {
        spec_glob_match(p.skip(2), s) || (s.len() > 0 && spec_glob_match(p, s.drop_first()))
    } else {
        s.len() > 0 && p[0] == s[0] && spec_glob_match(p.drop_first(), s.drop_first())
    }
}

/// `**` means "any sequence": a pattern starting with `**` matches `s`
/// exactly when the rest of the pattern matches some suffix of `s` — the
/// skipped prefix is arbitrary, including empty.
pub proof fn lemma_glob_star_any(p: Seq<char>, s: Seq<char>)
    ensures
        spec_glob_match(seq!['*', '*'] + p, s) <==> exists|k: int|
            0 <= k <= s.len() && spec_glob_match(p, #[trigger] s.skip(k)),
    decreases s.len(),
{
    let sp = seq!['*', '*'] + p;
    assert(sp.skip(2) =~= p);
    assert(s.skip(0) =~= s);
    if s.len() == 0 {
        if spec_glob_match(sp, s) {
            assert(spec_glob_match(p, s.skip(0)));
        }
        if exists|k: int| 0 <= k <= s.len() && spec_glob_match(p, #[trigger] s.skip(k)) {
            let k = choose|k: int| 0 <= k <= s.len() && spec_glob_match(p, #[trigger] s.skip(k));
            assert(k == 0);
            assert(spec_glob_match(sp, s));
        }
    } else {
        lemma_glob_star_any(p, s.drop_first());
        assert(s.drop_first() =~= s.skip(1));
        if spec_glob_match(sp, s) {
            if spec_glob_match(p, s) {
                assert(spec_glob_match(p, s.skip(0)));
            } else {
                assert(spec_glob_match(sp, s.drop_first()));
                let k = choose|k: int|
                    0 <= k <= s.drop_first().len() && spec_glob_match(
                        p,
                        #[trigger] s.drop_first().skip(k),
                    );
                assert(s.skip(k + 1) =~= s.drop_first().skip(k));
                assert(spec_glob_match(p, s.skip(k + 1)));
            }
        }
        if exists|k: int| 0 <= k <= s.len() && spec_glob_match(p, #[trigger] s.skip(k)) {
            let k = choose|k: int| 0 <= k <= s.len() && spec_glob_match(p, #[trigger] s.skip(k));
            if k == 0 {
                assert(spec_glob_match(p, s));
                assert(spec_glob_match(sp, s));
            } else {
                assert(s.skip(k) =~= s.drop_first().skip(k - 1));
                assert(spec_glob_match(p, s.drop_first().skip(k - 1)));
                assert(spec_glob_match(sp, s.drop_first()));
                assert(spec_glob_match(sp, s));
            }
        }
    }
}

/// Recursive glob matcher over the suffixes starting at `pi` and `si`.
fn glob_match_at(p: &str, s: &str, pi: usize, si: usize, p_len: usize, s_len: usize) -> (r: bool)
    requires
        pi <= p_len,
        si <= s_len,
        p_len == p@.len(),
        s_len == s@.len(),
    ensures
        r == spec_glob_match(p@.skip(pi as int), s@.skip(si as int)),
    decreases p_len - pi, s_len - si,
{
    let ghost ps = p@.skip(pi as int);
    let ghost ss = s@.skip(si as int);
    if pi == p_len {
        proof {
            assert(ps.len() == 0);
        }
        return si == s_len;
    }
    proof {
        assert(ps[0] == p@[pi as int]);
    }
    if pi + 1 < p_len && p.get_char(pi) == '*' && p.get_char(pi + 1) == '*' {
        proof {
            assert(ps[1] == p@[pi as int + 1]);
            assert(ps.skip(2) =~= p@.skip(pi as int + 2));
        }
        if glob_match_at(p, s, pi + 2, si, p_len, s_len) {
            return true;
        }
        if si < s_len {
            proof {
                assert(ss.drop_first() =~= s@.skip(si as int + 1));
            }
            return glob_match_at(p, s, pi, si + 1, p_len, s_len);
        }
        false
    } else {
        proof {
            if pi + 1 < p_len {
                assert(ps[1] == p@[pi as int + 1]);
            } else {
                assert(ps.len() == 1);
            }
            assert(ps.drop_first() =~= p@.skip(pi as int + 1));
            if si < s_len {
                assert(ss[0] == s@[si as int]);
                assert(ss.drop_first() =~= s@.skip(si as int + 1));
            }
        }
        if si < s_len && p.get_char(pi) == s.get_char(si) {
            glob_match_at(p, s, pi + 1, si + 1, p_len, s_len)
        } else {
            false
        }
    }
}

/// Whether the glob pattern `p` matches the whole of `s`.
pub fn glob_match(p: &str, s: &str) -> (r: bool)
    ensures
        r == spec_glob_match(p@, s@),
{
    let p_len = p.unicode_len();
    let s_len = s.unicode_len();
    proof {
        assert(p@.skip(0) =~= p@);
        assert(s@.skip(0) =~= s@);
    }
    glob_match_at(p, s, 0, 0, p_len, s_len)
}

} // verus!
