use vstd::prelude::*;
use crate::text::ascii_string_from_bytes;

verus! {

/// Whether a byte passes through form-urlencoding unchanged: ASCII
/// alphanumerics and `*`, `-`, `.`, `_`, exactly the set the
/// `application/x-www-form-urlencoded` byte serializer keeps.
pub open spec fn spec_urlencode_unchanged(b: u8) -> bool {
    ||| b == 42
    ||| b == 45
    ||| b == 46
    ||| b == 95
    ||| (48 <= b && b <= 57)
    ||| (65 <= b && b <= 90)
    ||| (97 <= b && b <= 122)
}

/// The upper-case hexadecimal digit for a value below sixteen.
pub open spec fn spec_hex_digit(n: u8) -> u8 {
    if n < 10 {
        (n + 48) as u8
    } else {
        (n + 55) as u8
    }
}

/// The form-urlencoding of one byte: itself if unchanged, `+` for a
/// space, otherwise `%` and two upper-case hexadecimal digits.
pub open spec fn spec_urlencode_byte(b: u8) -> Seq<u8> {
    if spec_urlencode_unchanged(b) {
        seq![b]
    } else if b == 32 {
        seq![43u8]
    } else {
        seq![37u8, spec_hex_digit(b / 16), spec_hex_digit(b % 16)]
    }
}

/// The form-urlencoding of a byte sequence.
pub open spec fn spec_urlencode_bytes(bs: Seq<u8>) -> Seq<u8>
    decreases bs.len(),
{
    if bs.len() == 0 {
        Seq::empty()
    } else {
        spec_urlencode_bytes(bs.drop_last()) + spec_urlencode_byte(bs.last())
    }
}

/// A byte sequence read as the characters with the same code points; the
/// encodings above produce ASCII only, where this reading is faithful.
pub open spec fn bytes_as_chars(bs: Seq<u8>) -> Seq<char> {
    bs.map_values(|b: u8| b as char)
}

/// The form-urlencoding of a string: its UTF-8 bytes encoded, read back
/// as characters.
pub open spec fn spec_urlencode(s: Seq<char>) -> Seq<char> {
    bytes_as_chars(spec_urlencode_bytes(vstd::utf8::encode_utf8(s)))
}

/// Every byte of an encoded sequence is ASCII.
proof fn lemma_urlencode_bytes_ascii(bs: Seq<u8>)
    ensures
        forall|i: int|
            0 <= i < spec_urlencode_bytes(bs).len() ==> #[trigger] spec_urlencode_bytes(bs)[i]
                < 128,
    decreases bs.len(),
{
    if bs.len() > 0 {
        lemma_urlencode_bytes_ascii(bs.drop_last());
        let pre = spec_urlencode_bytes(bs.drop_last());
        let suf = spec_urlencode_byte(bs.last());
        assert forall|i: int|
            0 <= i < spec_urlencode_bytes(bs).len() implies #[trigger] spec_urlencode_bytes(
            bs,
        )[i] < 128 by {
            if i < pre.len() {
                assert(spec_urlencode_bytes(bs)[i] == pre[i]);
            } else {
                assert(spec_urlencode_bytes(bs)[i] == suf[i - pre.len()]);
                assert(suf[i - pre.len()] < 128);
            }
        }
    }
}

/// No encoded byte is a pair or list separator or whitespace: `&`, `=`,
/// space, tab, carriage return and line feed are all escaped.
proof fn lemma_urlencode_bytes_plain(bs: Seq<u8>)
    ensures
        forall|i: int|
            0 <= i < spec_urlencode_bytes(bs).len() ==> {
                let b = #[trigger] spec_urlencode_bytes(bs)[i];
                b != 38 && b != 61 && b != 32 && b != 9 && b != 13 && b != 10
            },
    decreases bs.len(),
{
    if bs.len() > 0 {
        lemma_urlencode_bytes_plain(bs.drop_last());
        let pre = spec_urlencode_bytes(bs.drop_last());
        let suf = spec_urlencode_byte(bs.last());
        assert forall|i: int|
            0 <= i < spec_urlencode_bytes(bs).len() implies {
            let b = #[trigger] spec_urlencode_bytes(bs)[i];
            b != 38 && b != 61 && b != 32 && b != 9 && b != 13 && b != 10
        } by {
            if i < pre.len() {
                assert(spec_urlencode_bytes(bs)[i] == pre[i]);
            } else {
                assert(spec_urlencode_bytes(bs)[i] == suf[i - pre.len()]);
            }
        }
    }
}

/// No character of an encoded string is a pair or list separator or
/// whitespace.
pub proof fn lemma_urlencode_chars_plain(s: Seq<char>)
    ensures
        forall|i: int|
            0 <= i < spec_urlencode(s).len() ==> {
                let c = #[trigger] spec_urlencode(s)[i];
                c != '&' && c != '=' && !crate::text::spec_is_space(c)
            },
{
    let bs = spec_urlencode_bytes(vstd::utf8::encode_utf8(s));
    lemma_urlencode_bytes_plain(vstd::utf8::encode_utf8(s));
    assert forall|i: int|
        0 <= i < spec_urlencode(s).len() implies {
        let c = #[trigger] spec_urlencode(s)[i];
        c != '&' && c != '=' && !crate::text::spec_is_space(c)
    } by {
        assert(spec_urlencode(s)[i] == bs[i] as char);
        assert(bs[i] != 38 && bs[i] != 61 && bs[i] != 32 && bs[i] != 9 && bs[i] != 13 && bs[i]
            != 10);
    }
}

/// Form-urlencodes a string, escaping every reserved character.
pub fn urlencode(s: &str) -> (r: String)
    ensures
        r@ == spec_urlencode(s@),
{
    let bytes = s.as_bytes();
    let ghost bdv = bytes@;
    let n = bytes.len();
    let mut out: Vec<u8> = Vec::new();
    proof {
        assert(bdv.take(0) =~= Seq::<u8>::empty());
        assert(out@ =~= spec_urlencode_bytes(bdv.take(0)));
    }
    let mut i: usize = 0;
    while i < n
        invariant
            i <= n,
            n == bytes@.len(),
            bdv == bytes@,
            out@ == spec_urlencode_bytes(bdv.take(i as int)),
        decreases n - i,
    {
        let ghost odv = out@;
        let b = bytes[i];
        if b == 42 || b == 45 || b == 46 || b == 95 || (48 <= b && b <= 57) || (65 <= b && b
            <= 90) || (97 <= b && b <= 122) {
            out.push(b);
        } else if b == 32 {
            out.push(43);
        } else {
            out.push(37);
            let hi = b / 16;
            let lo = b % 16;
            out.push(if hi < 10 { hi + 48 } else { hi + 55 });
            out.push(if lo < 10 { lo + 48 } else { lo + 55 });
        }
        proof {
            assert(out@ =~= odv + spec_urlencode_byte(b));
            assert(bdv.take(i as int + 1).drop_last() =~= bdv.take(i as int));
            assert(bdv.take(i as int + 1).last() == bdv[i as int]);
        }
        i = i + 1;
    }
    proof {
        assert(bdv.take(n as int) =~= bdv);
        lemma_urlencode_bytes_ascii(bdv);
    }
    let r = ascii_string_from_bytes(&out);
    proof {
        assert(r@ =~= bytes_as_chars(out@));
    }
    r
}

} // verus!
