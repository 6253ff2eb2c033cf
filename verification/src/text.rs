use vstd::prelude::*;
use vstd::string::StrSliceExecFns;

verus! {

/// The code point of `c`, with an ASCII upper-case letter folded to the
/// code point of its lower-case form. Header names compare under this fold.
pub open spec fn spec_fold_case(c: char) -> u32 {
    if 'A' <= c && c <= 'Z' {
        (c as u32 + 32) as u32
    } else {
        c as u32
    }
}

/// Case-insensitive equality of two characters; only ASCII letters fold.
pub open spec fn char_eq_ci(a: char, b: char) -> bool {
    spec_fold_case(a) == spec_fold_case(b)
}

/// Case-insensitive equality of two character sequences.
pub open spec fn chars_eq_ci(a: Seq<char>, b: Seq<char>) -> bool {
    a.len() == b.len() && (forall|i: int| 0 <= i < a.len() ==> char_eq_ci(a[i], b[i]))
}

/// Case-insensitive character comparison.
pub fn char_eq_ci_exec(a: char, b: char) -> (r: bool)
    ensures
        r == char_eq_ci(a, b),
{
    let af: u32 = if 'A' <= a && a <= 'Z' {
        a as u32 + 32
    } else {
        a as u32
    };
    let bf: u32 = if 'A' <= b && b <= 'Z' {
        b as u32 + 32
    } else {
        b as u32
    };
    af == bf
}

/// Case-insensitive comparison of two strings.
pub fn str_eq_ci(a: &str, b: &str) -> (r: bool)
    ensures
        r == chars_eq_ci(a@, b@),
{
    let a_len = a.unicode_len();
    let b_len = b.unicode_len();
    if a_len != b_len {
        return false;
    }
    let mut i: usize = 0;
    while i < a_len
        invariant
            a_len == a@.len(),
            b_len == b@.len(),
            a_len == b_len,
            i <= a_len,
            forall|j: int| 0 <= j < i ==> char_eq_ci(a@[j], b@[j]),
        decreases a_len - i,
    {
        if !char_eq_ci_exec(a.get_char(i), b.get_char(i)) {
            return false;
        }
        i = i + 1;
    }
    true
}

/// Character-exact comparison of two strings.
pub fn str_eq(a: &str, b: &str) -> (r: bool)
    ensures
        r == (a@ == b@),
{
    let a_len = a.unicode_len();
    let b_len = b.unicode_len();
    if a_len != b_len {
        proof {
            assert(a@ != b@);
        }
        return false;
    }
    let mut i: usize = 0;
    while i < a_len
        invariant
            a_len == a@.len(),
            b_len == b@.len(),
            a_len == b_len,
            i <= a_len,
            forall|j: int| 0 <= j < i ==> a@[j] == b@[j],
        decreases a_len - i,
    {
        if a.get_char(i) != b.get_char(i) {
            return false;
        }
        i = i + 1;
    }
    proof {
        assert(a@ =~= b@);
    }
    true
}

/// Whether `c` is ASCII whitespace, the class trimmed around parsed tokens.
pub open spec fn spec_is_space(c: char) -> bool {
    c == ' ' || c == '\t' || c == '\r' || c == '\n'
}

/// ASCII whitespace test.
pub fn is_space(c: char) -> (r: bool)
    ensures
        r == spec_is_space(c),
{
    c == ' ' || c == '\t' || c == '\r' || c == '\n'
}

/// The subrange of `s` that remains after removing leading and trailing
/// ASCII whitespace: `s.subrange(a, b)` for the tightest such bounds.
pub open spec fn spec_trim(s: Seq<char>) -> Seq<char>
    decreases s.len(),
{
    if s.len() == 0 {
        s
    } else if spec_is_space(s[0]) {
        spec_trim(s.drop_first())
    } else if spec_is_space(s.last()) {
        spec_trim(s.drop_last())
    } else {
        s
    }
}

/// Removes leading and trailing ASCII whitespace from a string.
pub fn trim(s: &str) -> (r: &str)
    ensures
        r@ == spec_trim(s@),
{
    let len = s.unicode_len();
    let mut start: usize = 0;
    let mut end: usize = len;
    proof {
        assert(s@.subrange(0, len as int) =~= s@);
    }
    while start < end && is_space(s.get_char(start))
        invariant
            end <= len,
            len == s@.len(),
            start <= end,
            spec_trim(s@) == spec_trim(s@.subrange(start as int, end as int)),
            end == len,
        decreases end - start,
    {
        proof {
            assert(s@.subrange(start as int, end as int).drop_first() =~= s@.subrange(
                start as int + 1,
                end as int,
            ));
        }
        start = start + 1;
    }
    while end > start && is_space(s.get_char(end - 1))
        invariant
            start <= end,
            end <= len,
            len == s@.len(),
            spec_trim(s@) == spec_trim(s@.subrange(start as int, end as int)),
            start == end || !spec_is_space(s@[start as int]),
        decreases end,
    {
        proof {
            assert(s@.subrange(start as int, end as int).drop_last() =~= s@.subrange(
                start as int,
                end as int - 1,
            ));
        }
        end = end - 1;
    }
    proof {
        assert(spec_trim(s@.subrange(start as int, end as int)) == s@.subrange(
            start as int,
            end as int,
        ));
    }
    s.substring_char(start, end)
}

/// The pieces of `s` between occurrences of `sep`, in order. An empty
/// sequence yields one empty piece; a separator at either end or two
/// adjacent separators yield empty pieces, as `str::split` does.
pub open spec fn spec_split(s: Seq<char>, sep: char) -> Seq<Seq<char>>
    decreases s.len(),
{
    if s.len() == 0 {
        seq![Seq::<char>::empty()]
    } else if s[0] == sep {
        seq![Seq::<char>::empty()] + spec_split(s.drop_first(), sep)
    } else {
        let rest = spec_split(s.drop_first(), sep);
        seq![seq![s[0]] + rest[0]] + rest.drop_first()
    }
}

/// A split always yields at least one piece.
pub proof fn lemma_split_len(s: Seq<char>, sep: char)
    ensures
        spec_split(s, sep).len() >= 1,
    decreases s.len(),
{
    if s.len() == 0 {
    } else {
        lemma_split_len(s.drop_first(), sep);
    }
}

/// A sequence without the separator splits into itself alone.
pub proof fn lemma_split_no_sep(s: Seq<char>, sep: char)
    requires
        forall|j: int| 0 <= j < s.len() ==> s[j] != sep,
    ensures
        spec_split(s, sep) == seq![s],
    decreases s.len(),
{
    if s.len() == 0 {
        assert(spec_split(s, sep) =~~= seq![s]);
    } else {
        lemma_split_no_sep(s.drop_first(), sep);
        lemma_split_len(s.drop_first(), sep);
        assert(seq![s[0]] + s.drop_first() =~= s);
        assert(spec_split(s, sep) =~~= seq![s]);
    }
}

/// Splitting at the first separator: the piece before it, then the split
/// of what follows it.
pub proof fn lemma_split_at_sep(s: Seq<char>, sep: char, i: int)
    requires
        0 <= i < s.len(),
        forall|j: int| 0 <= j < i ==> s[j] != sep,
        s[i] == sep,
    ensures
        spec_split(s, sep) == seq![s.take(i)] + spec_split(
            s.subrange(i + 1, s.len() as int),
            sep,
        ),
    decreases i,
{
    if i == 0 {
        assert(s.drop_first() =~= s.subrange(1, s.len() as int));
        assert(s.take(0) =~= Seq::<char>::empty());
        assert(spec_split(s, sep) =~~= seq![s.take(0)] + spec_split(
            s.subrange(1, s.len() as int),
            sep,
        ));
    } else {
        let t = s.drop_first();
        lemma_split_at_sep(t, sep, i - 1);
        lemma_split_len(t.subrange(i, t.len() as int), sep);
        let rest = spec_split(t, sep);
        assert(rest[0] == t.take(i - 1));
        assert(seq![s[0]] + t.take(i - 1) =~= s.take(i));
        assert(t.subrange(i, t.len() as int) =~= s.subrange(i + 1, s.len() as int));
        assert(rest.drop_first() == spec_split(s.subrange(i + 1, s.len() as int), sep));
        assert(spec_split(s, sep) =~~= seq![s.take(i)] + spec_split(
            s.subrange(i + 1, s.len() as int),
            sep,
        ));
    }
}

/// Trimming changes nothing on text without surrounding whitespace.
pub proof fn lemma_trim_id(s: Seq<char>)
    requires
        forall|i: int| 0 <= i < s.len() ==> !spec_is_space(#[trigger] s[i]),
    ensures
        spec_trim(s) == s,
{
    if s.len() > 0 {
        assert(!spec_is_space(s[0]));
        assert(!spec_is_space(s[s.len() - 1]));
    }
}

/// Splitting a concatenation around one separator splits the two sides
/// independently.
pub proof fn lemma_split_concat(a: Seq<char>, b: Seq<char>, sep: char)
    ensures
        spec_split(a + seq![sep] + b, sep) == spec_split(a, sep) + spec_split(b, sep),
    decreases a.len(),
{
    let s = a + seq![sep] + b;
    if a.len() == 0 {
        assert(s[0] == sep);
        assert(s.drop_first() =~= b);
        assert(spec_split(a, sep) =~~= seq![Seq::<char>::empty()]);
        assert(spec_split(s, sep) =~~= spec_split(a, sep) + spec_split(b, sep));
    } else {
        lemma_split_concat(a.drop_first(), b, sep);
        assert(s[0] == a[0]);
        assert(s.drop_first() =~= a.drop_first() + seq![sep] + b);
        if a[0] == sep {
            assert(spec_split(s, sep) =~~= spec_split(a, sep) + spec_split(b, sep));
        } else {
            let rest = spec_split(s.drop_first(), sep);
            let arest = spec_split(a.drop_first(), sep);
            lemma_split_len(a.drop_first(), sep);
            assert(rest == arest + spec_split(b, sep));
            assert(rest[0] == arest[0]);
            assert(rest.drop_first() =~~= arest.drop_first() + spec_split(b, sep));
            assert(spec_split(s, sep) =~~= spec_split(a, sep) + spec_split(b, sep));
        }
    }
}

/// Splits `s` on `sep`, as `str::split` does.
pub fn split_str(s: &str, sep: char) -> (r: Vec<String>)
    ensures
        r.deep_view() == spec_split(s@, sep),
{
    let len = s.unicode_len();
    let mut out: Vec<String> = Vec::new();
    let mut pos: usize = 0;
    proof {
        assert(s@.subrange(0, len as int) =~= s@);
        assert(out.deep_view() + spec_split(s@, sep) =~= spec_split(s@, sep));
    }
    loop
        invariant_except_break
            pos <= len,
            len == s@.len(),
            spec_split(s@, sep) =~= out.deep_view() + spec_split(
                s@.subrange(pos as int, len as int),
                sep,
            ),
        ensures
            out.deep_view() =~= spec_split(s@, sep),
        decreases len - pos,
    {
        let mut i: usize = pos;
        while i < len && s.get_char(i) != sep
            invariant
                pos <= i <= len,
                len == s@.len(),
                forall|j: int| pos <= j < i ==> s@[j] != sep,
            decreases len - i,
        {
            i = i + 1;
        }
        let piece = s.substring_char(pos, i);
        let ghost dv0 = out.deep_view();
        out.push(String::from_str(piece));
        proof {
            assert(out.deep_view() =~= dv0.push(piece@));
            let suffix = s@.subrange(pos as int, len as int);
            if i < len {
                lemma_split_at_sep(suffix, sep, i - pos);
                assert(suffix.take(i - pos) =~= s@.subrange(pos as int, i as int));
                assert(suffix.subrange(i - pos + 1, suffix.len() as int) =~= s@.subrange(
                    i as int + 1,
                    len as int,
                ));
                assert(spec_split(s@, sep) =~= out.deep_view() + spec_split(
                    s@.subrange(i as int + 1, len as int),
                    sep,
                ));
            } else {
                assert(piece@ =~= suffix);
                lemma_split_no_sep(suffix, sep);
                assert(spec_split(s@, sep) =~= out.deep_view());
            }
        }
        if i == len {
            break ;
        }
        pos = i + 1;
    }
    out
}

/// Relies on `String::from_utf8`: a sequence of ASCII bytes is valid UTF-8
/// and decodes to the characters with the same code points.
#[verifier::external_body]
pub fn ascii_string_from_bytes(v: &Vec<u8>) -> (r: String)
    requires
        forall|i: int| 0 <= i < v@.len() ==> v@[i] < 128,
    ensures
        r@.len() == v@.len(),
        forall|i: int| 0 <= i < v@.len() ==> r@[i] == v@[i] as char,
{
    String::from_utf8(v.clone()).unwrap()
}

} // verus!
