use vstd::prelude::*;
use crate::ip::IpAddress;
use crate::text::{char_eq_ci, chars_eq_ci, str_eq_ci};

verus! {

/// An inbound HTTP request, reduced to the plain data the pipeline reads
/// and rewrites: method, path, raw query string, addressed host, and the
/// ordered header fields. The body is never inspected by the pipeline and
/// is carried outside this type.
pub struct HttpRequest {
    /// The request method, compared case-sensitively.
    pub method: String,
    /// The path component of the request target, byte-exact.
    pub path: String,
    /// The raw query string without the leading `?`; `None` when absent.
    pub query: Option<String>,
    /// The host (authority) the request addresses; `None` when unknown.
    pub host: Option<String>,
    /// Header fields in order. Names compare case-insensitively.
    pub headers: Vec<(String, String)>,
}

/// Connection-scoped data attached to a request before routing: the peer
/// address of the accepted connection, when it is known.
pub struct RequestContext {
    pub peer: Option<IpAddress>,
}

/// The headers of a request as a sequence of (name, value) character
/// sequences.
pub type HeaderSeq = Seq<(Seq<char>, Seq<char>)>;

/// The mathematical reading of a request: each field as plain character
/// sequences. Filter contracts state their rewrites over this model.
pub struct RequestModel {
    pub method: Seq<char>,
    pub path: Seq<char>,
    pub query: Option<Seq<char>>,
    pub host: Option<Seq<char>>,
    pub headers: HeaderSeq,
}

impl View for HttpRequest {
    type V = RequestModel;

    open spec fn view(&self) -> RequestModel {
        RequestModel {
            method: self.method@,
            path: self.path@,
            query: self.query.deep_view(),
            host: self.host.deep_view(),
            headers: self.headers.deep_view(),
        }
    }
}

/// The value of the first header whose name equals `name` up to ASCII
/// case, or `None` when no header carries that name.
pub open spec fn spec_header_lookup(hs: HeaderSeq, name: Seq<char>) -> Option<Seq<char>>
    decreases hs.len(),
{
    if hs.len() == 0 {
        None
    } else if chars_eq_ci(hs[0].0, name) {
        Some(hs[0].1)
    } else {
        spec_header_lookup(hs.drop_first(), name)
    }
}

/// Whether some header carries `name` (up to ASCII case).
pub open spec fn spec_has_header(hs: HeaderSeq, name: Seq<char>) -> bool {
    spec_header_lookup(hs, name) is Some
}

/// The headers that do not carry `name`, in their original order.
pub open spec fn spec_remove_header(hs: HeaderSeq, name: Seq<char>) -> HeaderSeq {
    hs.filter(|p: (Seq<char>, Seq<char>)| !chars_eq_ci(p.0, name))
}

/// The headers after unconditionally setting `name` to `value`: every
/// header carrying `name` is removed and one `(name, value)` pair is
/// appended.
pub open spec fn spec_set_header(hs: HeaderSeq, name: Seq<char>, value: Seq<char>) -> HeaderSeq {
    spec_remove_header(hs, name).push((name, value))
}

/// How many headers carry `name` (up to ASCII case).
pub open spec fn spec_count_header(hs: HeaderSeq, name: Seq<char>) -> nat {
    hs.filter(|p: (Seq<char>, Seq<char>)| chars_eq_ci(p.0, name)).len()
}

impl HttpRequest {
    /// The headers as plain character sequences.
    pub open spec fn spec_headers(&self) -> HeaderSeq {
        self.headers.deep_view()
    }

    /// Whether `other` differs from `self` only in its headers.
    pub open spec fn same_except_headers(&self, other: HttpRequest) -> bool {
        &&& self.method == other.method
        &&& self.path == other.path
        &&& self.query == other.query
        &&& self.host == other.host
    }

    /// The value of the first header named `name` (case-insensitively),
    /// cloned out of the request.
    pub fn header_value(&self, name: &str) -> (r: Option<String>)
        ensures
            r.deep_view() == spec_header_lookup(self.spec_headers(), name@),
    {
        let ghost dv = self.spec_headers();
        let n = self.headers.len();
        let mut i: usize = 0;
        proof {
            assert(dv.skip(0) =~= dv);
        }
        while i < n
            invariant
                i <= n,
                n == self.headers.len(),
                dv == self.spec_headers(),
                spec_header_lookup(dv, name@) == spec_header_lookup(dv.skip(i as int), name@),
            decreases n - i,
        {
            if str_eq_ci(self.headers[i].0.as_str(), name) {
                let value = self.headers[i].1.clone();
                proof {
                    assert(dv.skip(i as int)[0] == dv[i as int]);
                }
                return Some(value);
            }
            proof {
                assert(dv.skip(i as int).drop_first() =~= dv.skip(i as int + 1));
            }
            i = i + 1;
        }
        proof {
            assert(dv.skip(n as int).len() == 0);
        }
        None
    }

    /// Whether the request carries a header named `name`.
    pub fn has_header(&self, name: &str) -> (r: bool)
        ensures
            r == spec_has_header(self.spec_headers(), name@),
    {
        self.header_value(name).is_some()
    }

    /// Unconditionally sets the header `name` to `value`, overwriting and
    /// deduplicating any headers that already carry the name.
    pub fn set_header(&mut self, name: String, value: String)
        ensures
            final(self).spec_headers() == spec_set_header(
                old(self).spec_headers(),
                name@,
                value@,
            ),
            final(self).same_except_headers(*old(self)),
    {
        let ghost dv = self.spec_headers();
        let ghost keep = |p: (Seq<char>, Seq<char>)| !chars_eq_ci(p.0, name@);
        let n = self.headers.len();
        let mut kept: Vec<(String, String)> = Vec::new();
        let mut i: usize = 0;
        proof {
            reveal(Seq::filter);
            assert(dv.take(0) =~= Seq::<(Seq<char>, Seq<char>)>::empty());
            assert(kept.deep_view() =~= dv.take(0).filter(keep));
        }
        while i < n
            invariant
                i <= n,
                n == self.headers.len(),
                dv == self.spec_headers(),
                kept.deep_view() == dv.take(i as int).filter(keep),
                keep == (|p: (Seq<char>, Seq<char>)| !chars_eq_ci(p.0, name@)),
            decreases n - i,
        {
            let ghost kdv = kept.deep_view();
            if !str_eq_ci(self.headers[i].0.as_str(), name.as_str()) {
                let pair = (self.headers[i].0.clone(), self.headers[i].1.clone());
                kept.push(pair);
                proof {
                    assert(kept.deep_view() =~= kdv.push(dv[i as int]));
                }
            }
            proof {
                reveal(Seq::filter);
                assert(dv.take(i as int + 1).drop_last() =~= dv.take(i as int));
                assert(dv.take(i as int + 1).last() == dv[i as int]);
                assert(kept.deep_view() =~= dv.take(i as int + 1).filter(keep));
            }
            i = i + 1;
        }
        let ghost kdv = kept.deep_view();
        kept.push((name, value));
        proof {
            assert(dv.take(n as int) =~= dv);
            assert(kept.deep_view() =~= kdv.push((name@, value@)));
        }
        self.headers = kept;
    }

    /// Appends the header `name: value` without touching existing headers.
    pub fn push_header(&mut self, name: String, value: String)
        ensures
            final(self).spec_headers() == old(self).spec_headers().push((name@, value@)),
            final(self).same_except_headers(*old(self)),
    {
        let ghost dv = self.spec_headers();
        self.headers.push((name, value));
        proof {
            assert(self.spec_headers() =~= dv.push((name@, value@)));
        }
    }
}

/// Looking a name up after `spec_set_header` of that name yields the new
/// value, regardless of what the request carried before.
pub proof fn lemma_lookup_after_push(hs: HeaderSeq, name: Seq<char>, value: Seq<char>)
    requires
        forall|i: int| 0 <= i < hs.len() ==> !chars_eq_ci((#[trigger] hs[i]).0, name),
    ensures
        spec_header_lookup(hs.push((name, value)), name) == Some(value),
    decreases hs.len(),
{
    assert(chars_eq_ci(name, name));
    if hs.len() == 0 {
        assert(hs.push((name, value))[0] == (name, value));
    } else {
        assert(hs.push((name, value))[0] == hs[0]);
        assert(hs.push((name, value)).drop_first() =~= hs.drop_first().push((name, value)));
        lemma_lookup_after_push(hs.drop_first(), name, value);
    }
}

/// Setting a header overwrites: afterwards the name resolves to the new
/// value and exactly one header carries the name.
pub proof fn lemma_set_header_overwrites(hs: HeaderSeq, name: Seq<char>, value: Seq<char>)
    ensures
        spec_header_lookup(spec_set_header(hs, name, value), name) == Some(value),
        spec_count_header(spec_set_header(hs, name, value), name) == 1,
{
    let keep = |p: (Seq<char>, Seq<char>)| !chars_eq_ci(p.0, name);
    let matched = |p: (Seq<char>, Seq<char>)| chars_eq_ci(p.0, name);
    let removed = spec_remove_header(hs, name);
    assert forall|i: int| 0 <= i < removed.len() implies !chars_eq_ci(
        (#[trigger] removed[i]).0,
        name,
    ) by {
        hs.lemma_filter_pred(keep, i);
    }
    lemma_lookup_after_push(removed, name, value);
    let set = spec_set_header(hs, name, value);
    let only_new = set.filter(matched);
    reveal(Seq::filter);
    assert(set.drop_last() =~= removed);
    assert(set.last() == (name, value));
    assert(chars_eq_ci(name, name));
    assert(only_new =~= removed.filter(matched).push((name, value)));
    if removed.filter(matched).len() > 0 {
        removed.lemma_filter_pred(matched, 0);
        let witness = removed.filter(matched)[0];
        assert(removed.filter(matched).contains(witness));
        removed.filter(matched).lemma_contains_to_index(witness);
        let j = choose|j: int|
            0 <= j < removed.filter(matched).len() && removed.filter(matched)[j] == witness;
        assert(removed.contains(witness)) by {
            lemma_filter_subset(removed, matched, witness);
        }
        let k = choose|k: int| 0 <= k < removed.len() && removed[k] == witness;
        assert(!chars_eq_ci(removed[k].0, name));
        assert(false);
    }
}

/// Every element of a filtered sequence occurs in the original.
proof fn lemma_filter_subset<A>(s: Seq<A>, pred: spec_fn(A) -> bool, x: A)
    requires
        s.filter(pred).contains(x),
    ensures
        s.contains(x),
    decreases s.len(),
{
    reveal(Seq::filter);
    if s.len() > 0 {
        let f = s.filter(pred);
        let df = s.drop_last().filter(pred);
        if pred(s.last()) {
            assert(f == df.push(s.last()));
            if x == s.last() {
                assert(s[s.len() - 1] == x);
            } else {
                let j = choose|j: int| 0 <= j < f.len() && f[j] == x;
                assert(j < df.len());
                assert(df[j] == x);
                lemma_filter_subset(s.drop_last(), pred, x);
                let k = choose|k: int| 0 <= k < s.drop_last().len() && s.drop_last()[k] == x;
                assert(s[k] == x);
            }
        } else {
            assert(f == df);
            lemma_filter_subset(s.drop_last(), pred, x);
            let k = choose|k: int| 0 <= k < s.drop_last().len() && s.drop_last()[k] == x;
            assert(s[k] == x);
        }
    }
}

} // verus!
