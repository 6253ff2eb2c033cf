use vstd::prelude::*;
use vstd::string::StrSliceExecFns;
use crate::text::{lemma_split_len, spec_split, split_str};

verus! {

/// An IP address as plain data: the four octets of an IPv4 address packed
/// big-endian into a `u32`, or the sixteen bytes of an IPv6 address packed
/// big-endian into a `u128`. Address predicates compare these values, so
/// two textual spellings of one address are equal after parsing.
#[derive(Clone, Copy, Debug, PartialEq, Eq, Structural)]
pub enum IpAddress {
    V4(u32),
    V6(u128),
}

/// Decimal digit test.
pub open spec fn spec_is_digit(c: char) -> bool {
    '0' <= c && c <= '9'
}

/// The value of a sequence of decimal digits, most significant first.
pub open spec fn spec_dec_value(s: Seq<char>) -> int
    decreases s.len(),
{
    if s.len() == 0 {
        0
    } else {
        spec_dec_value(s.drop_last()) * 10 + (s.last() as u32 - '0' as u32)
    }
}

/// A valid dotted-quad octet: one to three decimal digits, no leading
/// zero, value at most 255.
pub open spec fn spec_valid_octet(s: Seq<char>) -> bool {
    &&& 1 <= s.len() <= 3
    &&& (forall|i: int| 0 <= i < s.len() ==> spec_is_digit(s[i]))
    &&& (s.len() > 1 ==> s[0] != '0')
    &&& spec_dec_value(s) <= 255
}

/// The IPv4 address denoted by `s` in dotted-quad notation, if any:
/// four valid octets separated by dots.
pub open spec fn spec_parse_ipv4(s: Seq<char>) -> Option<u32> {
    let parts = spec_split(s, '.');
    if parts.len() == 4 && (forall|i: int| 0 <= i < 4 ==> spec_valid_octet(parts[i])) {
        Some(
            ((spec_dec_value(parts[0]) * 0x1000000) + (spec_dec_value(parts[1]) * 0x10000) + (
            spec_dec_value(parts[2]) * 0x100) + spec_dec_value(parts[3])) as u32,
        )
    } else {
        None
    }
}

/// Parses one dotted-quad octet; `None` exactly on invalid text.
fn parse_octet(s: &str) -> (r: Option<u32>)
    ensures
        match r {
            Some(v) => spec_valid_octet(s@) && v == spec_dec_value(s@),
            None => !spec_valid_octet(s@),
        },
{
    let len = s.unicode_len();
    if len == 0 || len > 3 {
        return None;
    }
    if len > 1 && s.get_char(0) == '0' {
        return None;
    }
    let mut v: u32 = 0;
    let mut i: usize = 0;
    while i < len
        invariant
            i <= len,
            len == s@.len(),
            len <= 3,
            forall|j: int| 0 <= j < i ==> spec_is_digit(s@[j]),
            v == spec_dec_value(s@.subrange(0, i as int)),
            v <= 999,
        decreases len - i,
    {
        let c = s.get_char(i);
        if c < '0' || c > '9' {
            return None;
        }
        proof {
            assert(s@.subrange(0, i as int + 1).drop_last() =~= s@.subrange(0, i as int));
            assert(spec_dec_value(s@.subrange(0, i as int)) <= 99) by {
                lemma_dec_value_bound(s@.subrange(0, i as int));
            }
        }
        v = v * 10 + (c as u32 - 48);
        i = i + 1;
    }
    proof {
        assert(s@.subrange(0, len as int) =~= s@);
    }
    if v <= 255 {
        Some(v)
    } else {
        None
    }
}

/// A digit sequence of length at most `n` has value below `10^n`.
proof fn lemma_dec_value_bound(s: Seq<char>)
    requires
        forall|i: int| 0 <= i < s.len() ==> spec_is_digit(s[i]),
        s.len() <= 2,
    ensures
        spec_dec_value(s) <= 99,
        spec_dec_value(s) >= 0,
    decreases s.len(),
{
    if s.len() > 0 {
        assert(spec_is_digit(s[s.len() - 1]));
        lemma_dec_value_bound_inner(s.drop_last());
    }
}

proof fn lemma_dec_value_bound_inner(s: Seq<char>)
    requires
        forall|i: int| 0 <= i < s.len() ==> spec_is_digit(s[i]),
        s.len() <= 1,
    ensures
        spec_dec_value(s) <= 9,
        spec_dec_value(s) >= 0,
{
    if s.len() > 0 {
        assert(spec_is_digit(s[s.len() - 1]));
        assert(s.drop_last().len() == 0);
        assert(spec_dec_value(s.drop_last()) == 0);
        assert(spec_dec_value(s) == spec_dec_value(s.drop_last()) * 10 + (s.last() as u32
            - '0' as u32));
    }
}

/// Parses an IPv4 address in dotted-quad notation.
pub fn parse_ipv4(s: &str) -> (r: Option<u32>)
    ensures
        r == spec_parse_ipv4(s@),
{
    let parts = split_str(s, '.');
    if parts.len() != 4 {
        return None;
    }
    let o0 = parse_octet(parts[0].as_str());
    let o1 = parse_octet(parts[1].as_str());
    let o2 = parse_octet(parts[2].as_str());
    let o3 = parse_octet(parts[3].as_str());
    match (o0, o1, o2, o3) {
        (Some(a), Some(b), Some(c), Some(d)) => Some(a * 0x1000000 + b * 0x10000 + c * 0x100 + d),
        _ => None,
    }
}

/// Hexadecimal digit test.
pub open spec fn spec_is_hex_digit(c: char) -> bool {
    ('0' <= c && c <= '9') || ('a' <= c && c <= 'f') || ('A' <= c && c <= 'F')
}

/// The value of one hexadecimal digit.
pub open spec fn spec_hex_digit_value(c: char) -> int {
    if '0' <= c && c <= '9' {
        c as u32 - 48
    } else if 'a' <= c && c <= 'f' {
        c as u32 - 87
    } else {
        c as u32 - 55
    }
}

/// The value of a sequence of hexadecimal digits, most significant first.
pub open spec fn spec_hex_value(s: Seq<char>) -> int
    decreases s.len(),
{
    if s.len() == 0 {
        0
    } else {
        spec_hex_value(s.drop_last()) * 16 + spec_hex_digit_value(s.last())
    }
}

/// A valid sixteen-bit group of an IPv6 address: one to four hex digits.
pub open spec fn spec_valid_h16(s: Seq<char>) -> bool {
    1 <= s.len() <= 4 && (forall|i: int| 0 <= i < s.len() ==> spec_is_hex_digit(s[i]))
}

/// The group values of a token list of plain hex groups, or `None` when
/// some token is not one.
pub open spec fn spec_h16_groups(tokens: Seq<Seq<char>>) -> Option<Seq<u16>>
    decreases tokens.len(),
{
    if tokens.len() == 0 {
        Some(Seq::empty())
    } else {
        match spec_h16_groups(tokens.drop_last()) {
            Some(gs) => if spec_valid_h16(tokens.last()) {
                Some(gs.push(spec_hex_value(tokens.last()) as u16))
            } else {
                None
            },
            None => None,
        }
    }
}

/// Like [`spec_h16_groups`], except that the last token may instead be a
/// dotted-quad IPv4 address, contributing its upper and lower sixteen
/// bits as two groups.
pub open spec fn spec_tail_groups(tokens: Seq<Seq<char>>) -> Option<Seq<u16>> {
    if tokens.len() == 0 {
        Some(Seq::empty())
    } else {
        match spec_h16_groups(tokens.drop_last()) {
            Some(gs) => if spec_valid_h16(tokens.last()) {
                Some(gs.push(spec_hex_value(tokens.last()) as u16))
            } else {
                match spec_parse_ipv4(tokens.last()) {
                    Some(v) => Some(gs.push((v / 0x10000) as u16).push((v % 0x10000) as u16)),
                    None => None,
                }
            },
            None => None,
        }
    }
}

/// A lone empty token strictly inside the list, every other token
/// nonempty: the shape a single `::` leaves between two nonempty sides.
pub open spec fn spec_interior_gap(tokens: Seq<Seq<char>>, k: int) -> bool {
    &&& 0 < k < tokens.len() - 1
    &&& tokens[k].len() == 0
    &&& forall|i: int| 0 <= i < tokens.len() && i != k ==> (#[trigger] tokens[i]).len() > 0
}

/// The two group lists that a colon-token list with a `::` denotes: the
/// tokens before the gap and those after it. `None` when the empty tokens
/// do not form exactly one `::` (one interior gap, a leading `::`, a
/// trailing `::`, or `::` alone).
pub open spec fn spec_ipv6_sides(tokens: Seq<Seq<char>>) -> Option<(Seq<Seq<char>>, Seq<Seq<char>>)> {
    let n = tokens.len() as int;
    if n == 3 && tokens[0].len() == 0 && tokens[1].len() == 0 && tokens[2].len() == 0 {
        Some((Seq::empty(), Seq::empty()))
    } else if n >= 3 && tokens[0].len() == 0 && tokens[1].len() == 0 && (forall|i: int|
        2 <= i < n ==> (#[trigger] tokens[i]).len() > 0) {
        Some((Seq::empty(), tokens.skip(2)))
    } else if n >= 3 && tokens[n - 1].len() == 0 && tokens[n - 2].len() == 0 && (forall|i: int|
        0 <= i < n - 2 ==> (#[trigger] tokens[i]).len() > 0) {
        Some((tokens.take(n - 2), Seq::empty()))
    } else if exists|k: int| spec_interior_gap(tokens, k) {
        let k = choose|k: int| spec_interior_gap(tokens, k);
        Some((tokens.take(k), tokens.skip(k + 1)))
    } else {
        None
    }
}

/// The value of a group list read big-endian, sixteen bits per group.
pub open spec fn spec_groups_value(gs: Seq<u16>) -> int
    decreases gs.len(),
{
    if gs.len() == 0 {
        0
    } else {
        spec_groups_value(gs.drop_last()) * 0x10000 + gs.last()
    }
}

/// Sixteen to the `n`th power: the weight of a group `n` places from the
/// least significant end.
pub open spec fn spec_pow16(n: nat) -> int
    decreases n,
{
    if n == 0 {
        1
    } else {
        spec_pow16((n - 1) as nat) * 0x10000
    }
}

/// Eight groups padded out of two sides: the left groups, then as many
/// zero groups as the `::` stands for, then the right groups.
pub open spec fn spec_pad_groups(lg: Seq<u16>, rg: Seq<u16>) -> Seq<u16> {
    lg + Seq::new((8 - lg.len() - rg.len()) as nat, |i: int| 0u16) + rg
}

/// The IPv6 address denoted by `s`, if any: eight colon-separated hex
/// groups, optionally ending in an embedded dotted-quad IPv4 address, with
/// at most one `::` standing for one or more zero groups.
pub open spec fn spec_parse_ipv6(s: Seq<char>) -> Option<u128> {
    let tokens = spec_split(s, ':');
    if forall|i: int| 0 <= i < tokens.len() ==> (#[trigger] tokens[i]).len() > 0 {
        match spec_tail_groups(tokens) {
            Some(gs) => if gs.len() == 8 {
                Some(spec_groups_value(gs) as u128)
            } else {
                None
            },
            None => None,
        }
    } else {
        match spec_ipv6_sides(tokens) {
            Some((left, right)) => match (spec_h16_groups(left), spec_tail_groups(right)) {
                (Some(lg), Some(rg)) => if lg.len() + rg.len() <= 7 {
                    Some(spec_groups_value(spec_pad_groups(lg, rg)) as u128)
                } else {
                    None
                },
                _ => None,
            },
            None => None,
        }
    }
}

/// The address denoted by `s`, if any: dotted-quad text denotes an IPv4
/// address, colon-group text an IPv6 address.
pub open spec fn spec_parse_ip(s: Seq<char>) -> Option<IpAddress> {
    match spec_parse_ipv4(s) {
        Some(v) => Some(IpAddress::V4(v)),
        None => match spec_parse_ipv6(s) {
            Some(v) => Some(IpAddress::V6(v)),
            None => None,
        },
    }
}

/// Sixteen to the `n`th powers used below, written out.
proof fn lemma_pow16_values()
    ensures
        spec_pow16(7) == 0x10000000000000000000000000000,
        spec_pow16(8) == 0x100000000000000000000000000000000,
{
    assert(spec_pow16(0) == 1);
    assert(spec_pow16(1) == spec_pow16(0) * 0x10000);
    assert(spec_pow16(2) == spec_pow16(1) * 0x10000);
    assert(spec_pow16(3) == spec_pow16(2) * 0x10000);
    assert(spec_pow16(4) == spec_pow16(3) * 0x10000);
    assert(spec_pow16(5) == spec_pow16(4) * 0x10000);
    assert(spec_pow16(6) == spec_pow16(5) * 0x10000);
    assert(spec_pow16(7) == spec_pow16(6) * 0x10000);
    assert(spec_pow16(8) == spec_pow16(7) * 0x10000);
}

proof fn lemma_pow16_pos(n: nat)
    ensures
        spec_pow16(n) >= 1,
    decreases n,
{
    if n > 0 {
        lemma_pow16_pos((n - 1) as nat);
    }
}

proof fn lemma_pow16_le(a: nat, b: nat)
    requires
        a <= b,
    ensures
        spec_pow16(a) <= spec_pow16(b),
    decreases b,
{
    if a < b {
        lemma_pow16_le(a, (b - 1) as nat);
        lemma_pow16_pos((b - 1) as nat);
    }
}

/// A group list's value is nonnegative and below the weight of one more
/// group.
proof fn lemma_groups_value_bound(gs: Seq<u16>)
    ensures
        0 <= spec_groups_value(gs) < spec_pow16(gs.len()),
    decreases gs.len(),
{
    if gs.len() > 0 {
        lemma_groups_value_bound(gs.drop_last());
    } else {
        assert(spec_pow16(0) == 1);
    }
}

/// The value of at most eight groups fits in 128 bits.
proof fn lemma_groups_value_fits(gs: Seq<u16>)
    requires
        gs.len() <= 8,
    ensures
        0 <= spec_groups_value(gs) < 0x100000000000000000000000000000000,
{
    lemma_groups_value_bound(gs);
    lemma_pow16_le(gs.len(), 8);
    lemma_pow16_values();
}

/// A hex-digit sequence's value is nonnegative and below sixteen to its
/// length.
proof fn lemma_hex_value_bound(s: Seq<char>)
    requires
        forall|i: int| 0 <= i < s.len() ==> spec_is_hex_digit(s[i]),
    ensures
        0 <= spec_hex_value(s),
        s.len() <= 1 ==> spec_hex_value(s) < 16,
        s.len() <= 2 ==> spec_hex_value(s) < 256,
        s.len() <= 3 ==> spec_hex_value(s) < 4096,
        s.len() <= 4 ==> spec_hex_value(s) < 65536,
    decreases s.len(),
{
    if s.len() > 0 {
        assert(spec_is_hex_digit(s[s.len() - 1]));
        lemma_hex_value_bound(s.drop_last());
    }
}

/// One invalid token anywhere makes the group reading fail.
proof fn lemma_h16_groups_invalid(tokens: Seq<Seq<char>>, j: int)
    requires
        0 <= j < tokens.len(),
        !spec_valid_h16(tokens[j]),
    ensures
        spec_h16_groups(tokens) is None,
    decreases tokens.len(),
{
    if j < tokens.len() - 1 {
        assert(tokens.drop_last()[j] == tokens[j]);
        lemma_h16_groups_invalid(tokens.drop_last(), j);
    }
}

/// Parses one sixteen-bit hex group; `None` exactly on invalid text.
fn parse_h16(s: &str) -> (r: Option<u16>)
    ensures
        match r {
            Some(v) => spec_valid_h16(s@) && v as int == spec_hex_value(s@),
            None => !spec_valid_h16(s@),
        },
{
    let len = s.unicode_len();
    if len == 0 || len > 4 {
        return None;
    }
    let mut v: u32 = 0;
    let mut i: usize = 0;
    while i < len
        invariant
            i <= len,
            len == s@.len(),
            len <= 4,
            forall|j: int| 0 <= j < i ==> spec_is_hex_digit(s@[j]),
            v as int == spec_hex_value(s@.subrange(0, i as int)),
            v < 65536,
        decreases len - i,
    {
        let c = s.get_char(i);
        let d: u32 = if '0' <= c && c <= '9' {
            c as u32 - 48
        } else if 'a' <= c && c <= 'f' {
            c as u32 - 87
        } else if 'A' <= c && c <= 'F' {
            c as u32 - 55
        } else {
            return None;
        };
        proof {
            assert(s@.subrange(0, i as int + 1).drop_last() =~= s@.subrange(0, i as int));
            lemma_hex_value_bound(s@.subrange(0, i as int));
        }
        v = v * 16 + d;
        i = i + 1;
    }
    proof {
        assert(s@.subrange(0, len as int) =~= s@);
    }
    Some(v as u16)
}

/// Reads the tokens in `[from, to)` as plain hex groups.
#[verifier::loop_isolation(false)]
fn parse_h16_groups(tokens: &Vec<String>, from: usize, to: usize) -> (r: Option<Vec<u16>>)
    requires
        from <= to <= tokens@.len(),
    ensures
        ({
            let sub = tokens.deep_view().subrange(from as int, to as int);
            match r {
                Some(gs) => spec_h16_groups(sub) == Some(gs@),
                None => spec_h16_groups(sub) is None,
            }
        }),
{
    let ghost dv = tokens.deep_view();
    let mut out: Vec<u16> = Vec::new();
    let mut i: usize = from;
    proof {
        assert(dv.subrange(from as int, from as int) =~= Seq::<Seq<char>>::empty());
    }
    while i < to
        invariant
            from <= i <= to,
            spec_h16_groups(dv.subrange(from as int, i as int)) == Some(out@),
        decreases to - i,
    {
        proof {
            assert(dv.subrange(from as int, i as int + 1).drop_last() =~= dv.subrange(
                from as int,
                i as int,
            ));
            assert(dv.subrange(from as int, i as int + 1).last() == dv[i as int]);
        }
        match parse_h16(tokens[i].as_str()) {
            Some(v) => {
                out.push(v);
            },
            None => {
                proof {
                    let sub = dv.subrange(from as int, to as int);
                    assert(sub[i - from] == dv[i as int]);
                    lemma_h16_groups_invalid(sub, i - from);
                }
                return None;
            },
        }
        i = i + 1;
    }
    Some(out)
}

/// Reads the tokens in `[from, to)` as hex groups whose last token may be
/// an embedded dotted-quad IPv4 address.
#[verifier::loop_isolation(false)]
fn parse_tail_groups(tokens: &Vec<String>, from: usize, to: usize) -> (r: Option<Vec<u16>>)
    requires
        from <= to <= tokens@.len(),
    ensures
        ({
            let sub = tokens.deep_view().subrange(from as int, to as int);
            match r {
                Some(gs) => spec_tail_groups(sub) == Some(gs@),
                None => spec_tail_groups(sub) is None,
            }
        }),
{
    let ghost dv = tokens.deep_view();
    let ghost sub = dv.subrange(from as int, to as int);
    if to == from {
        let out: Vec<u16> = Vec::new();
        proof {
            assert(out@ =~= Seq::<u16>::empty());
        }
        return Some(out);
    }
    proof {
        assert(sub.drop_last() =~= dv.subrange(from as int, to as int - 1));
        assert(sub.last() == dv[to as int - 1]);
    }
    let mut out = match parse_h16_groups(tokens, from, to - 1) {
        Some(gs) => gs,
        None => {
            return None;
        },
    };
    match parse_h16(tokens[to - 1].as_str()) {
        Some(v) => {
            out.push(v);
            Some(out)
        },
        None => {
            match parse_ipv4(tokens[to - 1].as_str()) {
                Some(v4) => {
                    out.push((v4 / 0x10000) as u16);
                    out.push((v4 % 0x10000) as u16);
                    Some(out)
                },
                None => None,
            }
        },
    }
}

/// The value of a group list, read big-endian.
fn groups_value(gs: &Vec<u16>) -> (r: u128)
    requires
        gs@.len() <= 8,
    ensures
        r as int == spec_groups_value(gs@),
{
    let n = gs.len();
    let mut acc: u128 = 0;
    let mut i: usize = 0;
    proof {
        assert(gs@.subrange(0, 0) =~= Seq::<u16>::empty());
    }
    while i < n
        invariant
            i <= n,
            n == gs@.len(),
            n <= 8,
            acc as int == spec_groups_value(gs@.subrange(0, i as int)),
            (acc as int) < spec_pow16(i as nat),
        decreases n - i,
    {
        proof {
            assert(gs@.subrange(0, i as int + 1).drop_last() =~= gs@.subrange(0, i as int));
            assert(gs@.subrange(0, i as int + 1).last() == gs@[i as int]);
            assert(spec_pow16((i + 1) as nat) == spec_pow16(i as nat) * 0x10000);
            lemma_pow16_le((i + 1) as nat, 8);
            lemma_pow16_values();
        }
        acc = acc * 0x10000 + (gs[i] as u128);
        i = i + 1;
    }
    proof {
        assert(gs@.subrange(0, n as int) =~= gs@);
    }
    acc
}

/// Lays the two sides of a `::` out as the eight groups they denote.
fn pad_groups(lg: &Vec<u16>, rg: &Vec<u16>) -> (r: Vec<u16>)
    requires
        lg@.len() + rg@.len() <= 8,
    ensures
        r@ == spec_pad_groups(lg@, rg@),
        r@.len() == 8,
{
    let l = lg.len();
    let k = rg.len();
    let zeros = 8 - l - k;
    let mut out: Vec<u16> = Vec::new();
    let mut i: usize = 0;
    while i < l
        invariant
            i <= l,
            l == lg@.len(),
            out@ == lg@.subrange(0, i as int),
        decreases l - i,
    {
        out.push(lg[i]);
        proof {
            assert(out@ =~= lg@.subrange(0, i as int + 1));
        }
        i = i + 1;
    }
    proof {
        assert(lg@.subrange(0, l as int) =~= lg@);
    }
    let mut j: usize = 0;
    while j < zeros
        invariant
            j <= zeros,
            out@ == lg@ + Seq::new(j as nat, |x: int| 0u16),
        decreases zeros - j,
    {
        out.push(0);
        proof {
            assert(out@ =~= lg@ + Seq::new((j + 1) as nat, |x: int| 0u16));
        }
        j = j + 1;
    }
    let mut m: usize = 0;
    while m < k
        invariant
            m <= k,
            k == rg@.len(),
            out@ == lg@ + Seq::new(zeros as nat, |x: int| 0u16) + rg@.subrange(0, m as int),
        decreases k - m,
    {
        out.push(rg[m]);
        proof {
            assert(out@ =~= lg@ + Seq::new(zeros as nat, |x: int| 0u16) + rg@.subrange(
                0,
                m as int + 1,
            ));
        }
        m = m + 1;
    }
    proof {
        assert(rg@.subrange(0, k as int) =~= rg@);
        assert(out@ =~= spec_pad_groups(lg@, rg@));
    }
    out
}

/// Whether every token in `[from, to)` is nonempty.
#[verifier::loop_isolation(false)]
fn all_nonempty(tokens: &Vec<String>, from: usize, to: usize) -> (r: bool)
    requires
        from <= to <= tokens@.len(),
    ensures
        r == (forall|j: int|
            from <= j < to ==> (#[trigger] tokens.deep_view()[j]).len() > 0),
{
    let ghost dv = tokens.deep_view();
    let mut i: usize = from;
    while i < to
        invariant
            from <= i <= to,
            forall|j: int| from <= j < i ==> (#[trigger] dv[j]).len() > 0,
        decreases to - i,
    {
        if tokens[i].as_str().is_empty() {
            proof {
                assert(tokens.deep_view()[i as int].len() == 0);
            }
            return false;
        }
        i = i + 1;
    }
    true
}

/// The index of the first empty token, if any.
#[verifier::loop_isolation(false)]
fn first_empty_token(tokens: &Vec<String>) -> (r: Option<usize>)
    ensures
        match r {
            Some(k) => k < tokens@.len() && tokens.deep_view()[k as int].len() == 0 && (forall|
                j: int,
            |
                0 <= j < k ==> (#[trigger] tokens.deep_view()[j]).len() > 0),
            None => forall|j: int|
                0 <= j < tokens@.len() ==> (#[trigger] tokens.deep_view()[j]).len() > 0,
        },
{
    let ghost dv = tokens.deep_view();
    let n = tokens.len();
    let mut i: usize = 0;
    while i < n
        invariant
            i <= n,
            forall|j: int| 0 <= j < i ==> (#[trigger] dv[j]).len() > 0,
        decreases n - i,
    {
        if tokens[i].as_str().is_empty() {
            proof {
                assert(dv[i as int].len() == 0);
            }
            return Some(i);
        }
        i = i + 1;
    }
    None
}

/// Parses an IPv6 address: eight hex groups, optionally ending in an
/// embedded dotted-quad IPv4 address, with at most one `::` standing for
/// one or more zero groups.
pub fn parse_ipv6(s: &str) -> (r: Option<u128>)
    ensures
        r == spec_parse_ipv6(s@),
{
    let tokens = split_str(s, ':');
    let ghost dv = tokens.deep_view();
    let n = tokens.len();
    proof {
        lemma_split_len(s@, ':');
    }
    if all_nonempty(&tokens, 0, n) {
        proof {
            assert(dv.subrange(0, n as int) =~= dv);
        }
        match parse_tail_groups(&tokens, 0, n) {
            Some(gs) => {
                if gs.len() == 8 {
                    proof {
                        lemma_groups_value_fits(gs@);
                    }
                    Some(groups_value(&gs))
                } else {
                    None
                }
            },
            None => None,
        }
    } else {
        // the sides of the one allowed `::`, as token ranges
        let left_to: usize;
        let right_from: usize;
        let right_to: usize;
        if n == 3 && tokens[0].as_str().is_empty() && tokens[1].as_str().is_empty()
            && tokens[2].as_str().is_empty() {
            left_to = 0;
            right_from = 0;
            right_to = 0;
        } else if n >= 3 && tokens[0].as_str().is_empty() && tokens[1].as_str().is_empty()
            && all_nonempty(&tokens, 2, n) {
            left_to = 0;
            right_from = 2;
            right_to = n;
        } else if n >= 3 && tokens[n - 1].as_str().is_empty() && tokens[n - 2].as_str().is_empty()
            && all_nonempty(&tokens, 0, n - 2) {
            left_to = n - 2;
            right_from = 0;
            right_to = 0;
        } else {
            match first_empty_token(&tokens) {
                Some(k) => {
                    if 0 < k && k < n - 1 && all_nonempty(&tokens, k + 1, n) {
                        proof {
                            assert(spec_interior_gap(dv, k as int));
                            let kc = choose|x: int| spec_interior_gap(dv, x);
                            if kc != k as int {
                                assert(dv[k as int].len() > 0);
                                assert(false);
                            }
                        }
                        left_to = k;
                        right_from = k + 1;
                        right_to = n;
                    } else {
                        proof {
                            if exists|x: int| spec_interior_gap(dv, x) {
                                let kg = choose|x: int| spec_interior_gap(dv, x);
                                if kg != k as int {
                                    assert(dv[k as int].len() > 0);
                                }
                                assert(false);
                            }
                        }
                        return None;
                    }
                },
                None => {
                    proof {
                        assert(false);
                    }
                    return None;
                },
            }
        }
        proof {
            assert(dv.subrange(0, left_to as int) =~= dv.take(left_to as int));
            assert(dv.subrange(right_from as int, right_to as int) =~= if right_to == 0 {
                Seq::<Seq<char>>::empty()
            } else {
                dv.skip(right_from as int)
            });
        }
        let lg = match parse_h16_groups(&tokens, 0, left_to) {
            Some(gs) => gs,
            None => {
                return None;
            },
        };
        let rg = match parse_tail_groups(&tokens, right_from, right_to) {
            Some(gs) => gs,
            None => {
                return None;
            },
        };
        if lg.len() <= 7 && rg.len() <= 7 - lg.len() {
            let padded = pad_groups(&lg, &rg);
            proof {
                lemma_groups_value_fits(padded@);
            }
            Some(groups_value(&padded))
        } else {
            None
        }
    }
}

/// Parses an IP address literal; `None` exactly on text that denotes none.
pub fn parse_ip(s: &str) -> (r: Option<IpAddress>)
    ensures
        r == spec_parse_ip(s@),
{
    match parse_ipv4(s) {
        Some(v) => Some(IpAddress::V4(v)),
        None => match parse_ipv6(s) {
            Some(v) => Some(IpAddress::V6(v)),
            None => None,
        },
    }
}

/// Membership of an address in a configured address list.
pub fn contains_address(addrs: &Vec<IpAddress>, a: IpAddress) -> (r: bool)
    ensures
        r == addrs@.contains(a),
{
    let mut i: usize = 0;
    while i < addrs.len()
        invariant
            i <= addrs@.len(),
            forall|j: int| 0 <= j < i ==> addrs@[j] != a,
        decreases addrs@.len() - i,
    {
        if addrs[i] == a {
            return true;
        }
        i = i + 1;
    }
    false
}

} // verus!
