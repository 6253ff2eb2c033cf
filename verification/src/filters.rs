use vstd::prelude::*;
use vstd::string::StrSliceExecFns;
use crate::errors::FilterError;
use crate::request::{
    spec_has_header, spec_header_lookup, spec_set_header, HttpRequest, RequestModel,
};
use crate::pairs::{lemma_collect_pairs_concat, spec_collect_pairs, spec_pair_of, spec_parse_pairs};
use crate::text::{lemma_split_concat, lemma_split_no_sep, lemma_trim_id, spec_split};
use crate::urlencode::{lemma_urlencode_chars_plain, spec_urlencode, urlencode};

verus! {

/// Whether `c` may stand in a header name on the wire: the HTTP token
/// characters (letters, digits, and `!#$%&'*+-.^_`|~`).
pub open spec fn spec_valid_header_name_char(c: char) -> bool {
    ||| ('a' <= c && c <= 'z')
    ||| ('A' <= c && c <= 'Z')
    ||| ('0' <= c && c <= '9')
    ||| c == '!'
    ||| c == '#'
    ||| c == '$'
    ||| c == '%'
    ||| c == '&'
    ||| c == '\''
    ||| c == '*'
    ||| c == '+'
    ||| c == '-'
    ||| c == '.'
    ||| c == '^'
    ||| c == '_'
    ||| c == '`'
    ||| c == '|'
    ||| c == '~'
}

/// A legal wire-format header name: nonempty, token characters only.
pub open spec fn spec_valid_header_name(s: Seq<char>) -> bool {
    s.len() > 0 && (forall|i: int| 0 <= i < s.len() ==> spec_valid_header_name_char(s[i]))
}

/// Whether `c` may stand in a header value on the wire: a tab or any
/// character other than the control characters below space and delete.
pub open spec fn spec_valid_header_value_char(c: char) -> bool {
    c == '\t' || (c as u32 >= 32 && c as u32 != 127)
}

/// A legal wire-format header value.
pub open spec fn spec_valid_header_value(s: Seq<char>) -> bool {
    forall|i: int| 0 <= i < s.len() ==> spec_valid_header_value_char(s[i])
}

/// Checks that a string is a legal wire-format header name.
pub fn valid_header_name(s: &str) -> (r: bool)
    ensures
        r == spec_valid_header_name(s@),
{
    let n = s.unicode_len();
    if n == 0 {
        return false;
    }
    let mut i: usize = 0;
    while i < n
        invariant
            i <= n,
            n == s@.len(),
            forall|j: int| 0 <= j < i ==> spec_valid_header_name_char(s@[j]),
        decreases n - i,
    {
        let c = s.get_char(i);
        let ok = ('a' <= c && c <= 'z') || ('A' <= c && c <= 'Z') || ('0' <= c && c <= '9') || c
            == '!' || c == '#' || c == '$' || c == '%' || c == '&' || c == '\'' || c == '*' || c
            == '+' || c == '-' || c == '.' || c == '^' || c == '_' || c == '`' || c == '|' || c
            == '~';
        if !ok {
            return false;
        }
        i = i + 1;
    }
    true
}

/// Checks that a string is a legal wire-format header value.
pub fn valid_header_value(s: &str) -> (r: bool)
    ensures
        r == spec_valid_header_value(s@),
{
    let n = s.unicode_len();
    let mut i: usize = 0;
    while i < n
        invariant
            i <= n,
            n == s@.len(),
            forall|j: int| 0 <= j < i ==> spec_valid_header_value_char(s@[j]),
        decreases n - i,
    {
        let c = s.get_char(i);
        let u = c as u32;
        if !(c == '\t' || (u >= 32 && u != 127)) {
            return false;
        }
        i = i + 1;
    }
    true
}

/// Unconditionally sets a header, overwriting any existing value.
pub struct AddRequestHeader {
    pub name: String,
    pub value: String,
}

impl AddRequestHeader {
    pub fn new(name: String, value: String) -> (r: Self)
        ensures
            r.name == name,
            r.value == value,
    {
        Self { name, value }
    }

    /// What applying this filter yields: the header set to the new value,
    /// or the first wire-format error in the configured name or value.
    pub open spec fn spec_apply(&self, m: RequestModel) -> Result<RequestModel, FilterError> {
        if !spec_valid_header_name(self.name@) {
            Err(FilterError::InvalidHeaderName)
        } else if !spec_valid_header_value(self.value@) {
            Err(FilterError::InvalidHeaderValue)
        } else {
            Ok(RequestModel { headers: spec_set_header(m.headers, self.name@, self.value@), ..m })
        }
    }

    pub fn apply(&self, req: HttpRequest) -> (r: Result<HttpRequest, FilterError>)
        ensures
            match r {
                Ok(out) => self.spec_apply(req@) == Ok::<RequestModel, FilterError>(out@),
                Err(e) => self.spec_apply(req@) == Err::<RequestModel, FilterError>(e),
            },
    {
        if !valid_header_name(self.name.as_str()) {
            return Err(FilterError::InvalidHeaderName);
        }
        if !valid_header_value(self.value.as_str()) {
            return Err(FilterError::InvalidHeaderValue);
        }
        let mut out = req;
        out.set_header(self.name.clone(), self.value.clone());
        Ok(out)
    }
}

/// Sets each of an ordered list of headers only where the request does
/// not already carry the name.
pub struct AddRequestHeadersIfNotPresent {
    pub headers: Vec<(String, String)>,
}

/// What setting `pairs` if-absent, in order, yields: present names are
/// left untouched, absent ones are appended; a wire-format error in a
/// pair that would be applied aborts the rest.
pub open spec fn spec_apply_if_absent(pairs: Seq<(String, String)>, m: RequestModel) -> Result<
    RequestModel,
    FilterError,
>
    decreases pairs.len(),
{
    if pairs.len() == 0 {
        Ok(m)
    } else if !spec_valid_header_name(pairs[0].0@) {
        Err(FilterError::InvalidHeaderName)
    } else if spec_has_header(m.headers, pairs[0].0@) {
        spec_apply_if_absent(pairs.drop_first(), m)
    } else if !spec_valid_header_value(pairs[0].1@) {
        Err(FilterError::InvalidHeaderValue)
    } else {
        spec_apply_if_absent(
            pairs.drop_first(),
            RequestModel { headers: m.headers.push((pairs[0].0@, pairs[0].1@)), ..m },
        )
    }
}

impl AddRequestHeadersIfNotPresent {
    pub fn new(headers: Vec<(String, String)>) -> (r: Self)
        ensures
            r.headers == headers,
    {
        Self { headers }
    }

    pub open spec fn spec_apply(&self, m: RequestModel) -> Result<RequestModel, FilterError> {
        spec_apply_if_absent(self.headers@, m)
    }

    #[verifier::loop_isolation(false)]
    pub fn apply(&self, req: HttpRequest) -> (r: Result<HttpRequest, FilterError>)
        ensures
            match r {
                Ok(out) => self.spec_apply(req@) == Ok::<RequestModel, FilterError>(out@),
                Err(e) => self.spec_apply(req@) == Err::<RequestModel, FilterError>(e),
            },
    {
        let ghost pairs = self.headers@;
        let n = self.headers.len();
        let mut out = req;
        let mut i: usize = 0;
        proof {
            assert(pairs.skip(0) =~= pairs);
        }
        while i < n
            invariant
                i <= n,
                spec_apply_if_absent(pairs, req@) == spec_apply_if_absent(
                    pairs.skip(i as int),
                    out@,
                ),
            decreases n - i,
        {
            proof {
                assert(pairs.skip(i as int)[0] == pairs[i as int]);
                assert(pairs.skip(i as int).drop_first() =~= pairs.skip(i as int + 1));
            }
            if !valid_header_name(self.headers[i].0.as_str()) {
                return Err(FilterError::InvalidHeaderName);
            }
            if !out.has_header(self.headers[i].0.as_str()) {
                if !valid_header_value(self.headers[i].1.as_str()) {
                    return Err(FilterError::InvalidHeaderValue);
                }
                out.push_header(self.headers[i].0.clone(), self.headers[i].1.clone());
            }
            i = i + 1;
        }
        proof {
            assert(pairs.skip(n as int).len() == 0);
        }
        Ok(out)
    }
}

/// Appends one query parameter, URL-encoding its name and value and
/// preserving the existing query string verbatim.
pub struct AddRequestParameter {
    pub name: String,
    pub value: String,
}

/// The query string after appending `name=value` in encoded form: the old
/// query followed by `&` and the encoded pair, or the encoded pair alone
/// when there was no query text.
pub open spec fn spec_append_param(
    q: Option<Seq<char>>,
    name: Seq<char>,
    value: Seq<char>,
) -> Seq<char> {
    let pair = spec_urlencode(name) + "="@ + spec_urlencode(value);
    match q {
        Some(old_q) => if old_q.len() == 0 {
            pair
        } else {
            old_q + "&"@ + pair
        },
        None => pair,
    }
}

impl AddRequestParameter {
    pub fn new(name: String, value: String) -> (r: Self)
        ensures
            r.name == name,
            r.value == value,
    {
        Self { name, value }
    }

    /// Appending a parameter never fails: encoding makes any configured
    /// name and value legal on the wire.
    pub open spec fn spec_apply(&self, m: RequestModel) -> Result<RequestModel, FilterError> {
        Ok(
            RequestModel {
                query: Some(spec_append_param(m.query, self.name@, self.value@)),
                ..m
            },
        )
    }

    pub fn apply(&self, req: HttpRequest) -> (r: Result<HttpRequest, FilterError>)
        ensures
            match r {
                Ok(out) => self.spec_apply(req@) == Ok::<RequestModel, FilterError>(out@),
                Err(e) => self.spec_apply(req@) == Err::<RequestModel, FilterError>(e),
            },
    {
        let encoded_name = urlencode(self.name.as_str());
        let encoded_value = urlencode(self.value.as_str());
        let mut out = req;
        let mut new_query: String;
        match &out.query {
            Some(q) if q.as_str().unicode_len() > 0 => {
                new_query = q.clone();
                new_query.append("&");
            },
            _ => {
                new_query = String::new();
            },
        }
        new_query.append(encoded_name.as_str());
        new_query.append("=");
        new_query.append(encoded_value.as_str());
        proof {
            assert(new_query@ =~= spec_append_param(out.query.deep_view(), self.name@, self.value@));
        }
        out.query = Some(new_query);
        Ok(out)
    }
}

/// A single request mutation: one of a closed set of fallible rewrites
/// applied before forwarding.
pub enum Filter {
    AddRequestHeader(AddRequestHeader),
    AddRequestHeadersIfNotPresent(AddRequestHeadersIfNotPresent),
    AddRequestParameters(AddRequestParameter),
}

/// What applying one filter yields, as a function of the filter and the
/// request model.
pub open spec fn spec_apply_filter(f: Filter, m: RequestModel) -> Result<
    RequestModel,
    FilterError,
> {
    match f {
        Filter::AddRequestHeader(g) => g.spec_apply(m),
        Filter::AddRequestHeadersIfNotPresent(g) => g.spec_apply(m),
        Filter::AddRequestParameters(g) => g.spec_apply(m),
    }
}

impl Filter {
    /// Applies the filter to a request, yielding the rewritten request or
    /// the error that aborts the chain.
    pub fn apply(&self, req: HttpRequest) -> (r: Result<HttpRequest, FilterError>)
        ensures
            match r {
                Ok(out) => spec_apply_filter(*self, req@) == Ok::<RequestModel, FilterError>(out@),
                Err(e) => spec_apply_filter(*self, req@) == Err::<RequestModel, FilterError>(e),
            },
    {
        match self {
            Filter::AddRequestHeader(g) => g.apply(req),
            Filter::AddRequestHeadersIfNotPresent(g) => g.apply(req),
            Filter::AddRequestParameters(g) => g.apply(req),
        }
    }
}

/// What a filter chain yields: the filters applied strictly in declared
/// order, each receiving the request as rewritten by all prior filters;
/// the first error aborts the rest.
pub open spec fn spec_apply_filters(fs: Seq<Filter>, m: RequestModel) -> Result<
    RequestModel,
    FilterError,
>
    decreases fs.len(),
{
    if fs.len() == 0 {
        Ok(m)
    } else {
        match spec_apply_filter(fs[0], m) {
            Ok(m2) => spec_apply_filters(fs.drop_first(), m2),
            Err(e) => Err(e),
        }
    }
}

/// Applies a filter chain in declared order, failing fast on the first
/// filter error.
#[verifier::loop_isolation(false)]
pub fn apply_filters(filters: &Vec<Filter>, req: HttpRequest) -> (r: Result<
    HttpRequest,
    FilterError,
>)
    ensures
        match r {
            Ok(out) => spec_apply_filters(filters@, req@) == Ok::<RequestModel, FilterError>(out@),
            Err(e) => spec_apply_filters(filters@, req@) == Err::<RequestModel, FilterError>(e),
        },
{
    let ghost fs = filters@;
    let n = filters.len();
    let mut out = req;
    let mut i: usize = 0;
    proof {
        assert(fs.skip(0) =~= fs);
    }
    while i < n
        invariant
            i <= n,
            spec_apply_filters(fs, req@) == spec_apply_filters(fs.skip(i as int), out@),
        decreases n - i,
    {
        proof {
            assert(fs.skip(i as int)[0] == fs[i as int]);
            assert(fs.skip(i as int).drop_first() =~= fs.skip(i as int + 1));
        }
        match filters[i].apply(out) {
            Ok(next) => {
                out = next;
            },
            Err(e) => {
                return Err(e);
            },
        }
        i = i + 1;
    }
    proof {
        assert(fs.skip(n as int).len() == 0);
    }
    Ok(out)
}

/// Appending a query parameter preserves the existing parameters: the
/// pair list parsed from the rewritten query is the pair list of the old
/// query, in its order, with the one encoded pair appended.
pub proof fn lemma_append_param_preserves_params(q: Seq<char>, name: Seq<char>, value: Seq<char>)
    requires
        q.len() > 0,
    ensures
        spec_parse_pairs(spec_append_param(Some(q), name, value), '&') == spec_parse_pairs(
            q,
            '&',
        ) + seq![(spec_urlencode(name), spec_urlencode(value))],
{
    let en = spec_urlencode(name);
    let ev = spec_urlencode(value);
    let pair = en + "="@ + ev;
    reveal_strlit("&");
    reveal_strlit("=");
    assert("&"@ =~= seq!['&']);
    assert("="@ =~= seq!['=']);
    let newq = spec_append_param(Some(q), name, value);
    assert(newq =~= q + seq!['&'] + pair);
    lemma_split_concat(q, pair, '&');
    lemma_urlencode_chars_plain(name);
    lemma_urlencode_chars_plain(value);
    assert forall|i: int| 0 <= i < pair.len() implies #[trigger] pair[i] != '&'
        && !crate::text::spec_is_space(pair[i]) by {
        if i < en.len() {
            assert(pair[i] == en[i]);
        } else if i == en.len() {
            assert(pair[i] == ("="@)[0]);
        } else {
            assert(pair[i] == ev[i - en.len() - 1]);
        }
    }
    lemma_split_no_sep(pair, '&');
    assert(spec_split(newq, '&') =~~= spec_split(q, '&') + seq![pair]);
    lemma_collect_pairs_concat(spec_split(q, '&'), seq![pair]);
    lemma_split_concat(en, ev, '=');
    assert forall|i: int| 0 <= i < en.len() implies #[trigger] en[i] != '=' by {
        assert(en[i] == pair[i]);
    }
    assert forall|i: int| 0 <= i < ev.len() implies #[trigger] ev[i] != '=' by {
        assert(ev[i] == pair[en.len() + 1 + i]);
    }
    lemma_split_no_sep(en, '=');
    lemma_split_no_sep(ev, '=');
    let segs = spec_split(pair, '=');
    assert(segs =~~= seq![en, ev]);
    lemma_trim_id(en);
    lemma_trim_id(ev);
    assert(spec_pair_of(pair) == Some((en, ev)));
    assert(seq![pair].drop_last() =~= Seq::<Seq<char>>::empty());
    assert(seq![pair].last() == pair);
    assert(spec_collect_pairs(Seq::<Seq<char>>::empty()) =~= Seq::<(
        Seq<char>,
        Seq<char>,
    )>::empty());
    assert(spec_collect_pairs(seq![pair]) =~~= seq![(en, ev)]);
    assert(spec_parse_pairs(newq, '&') =~~= spec_parse_pairs(q, '&') + seq![(en, ev)]);
}

/// Filter chains compose in declared order: running the concatenation of
/// two chains is running the first, then — unless it failed — running the
/// second on its result. Order matters; no commutation is claimed.
pub proof fn lemma_filter_chain_composes(fs1: Seq<Filter>, fs2: Seq<Filter>, m: RequestModel)
    ensures
        spec_apply_filters(fs1 + fs2, m) == (match spec_apply_filters(fs1, m) {
            Ok(m2) => spec_apply_filters(fs2, m2),
            Err(e) => Err(e),
        }),
    decreases fs1.len(),
{
    if fs1.len() == 0 {
        assert(fs1 + fs2 =~= fs2);
    } else {
        assert((fs1 + fs2)[0] == fs1[0]);
        assert((fs1 + fs2).drop_first() =~= fs1.drop_first() + fs2);
        match spec_apply_filter(fs1[0], m) {
            Ok(m2) => {
                lemma_filter_chain_composes(fs1.drop_first(), fs2, m2);
            },
            Err(e) => {},
        }
    }
}

/// Appending a header never disturbs the value an already-present name
/// resolves to: lookup finds the first occurrence.
pub proof fn lemma_lookup_unchanged_by_push(
    hs: crate::request::HeaderSeq,
    name: Seq<char>,
    p: (Seq<char>, Seq<char>),
)
    requires
        spec_has_header(hs, name),
    ensures
        spec_header_lookup(hs.push(p), name) == spec_header_lookup(hs, name),
    decreases hs.len(),
{
    if hs.len() > 0 {
        assert(hs.push(p)[0] == hs[0]);
        if !crate::text::chars_eq_ci(hs[0].0, name) {
            assert(hs.push(p).drop_first() =~= hs.drop_first().push(p));
            lemma_lookup_unchanged_by_push(hs.drop_first(), name, p);
        }
    }
}

/// Setting headers only-if-absent preserves existing values: any name the
/// request already binds resolves to the same value afterwards.
pub proof fn lemma_if_absent_preserves_existing(
    pairs: Seq<(String, String)>,
    m: RequestModel,
    name: Seq<char>,
)
    requires
        spec_has_header(m.headers, name),
    ensures
        match spec_apply_if_absent(pairs, m) {
            Ok(m2) => spec_header_lookup(m2.headers, name) == spec_header_lookup(
                m.headers,
                name,
            ),
            Err(_) => true,
        },
    decreases pairs.len(),
{
    if pairs.len() > 0 {
        if !spec_valid_header_name(pairs[0].0@) {
        } else if spec_has_header(m.headers, pairs[0].0@) {
            lemma_if_absent_preserves_existing(pairs.drop_first(), m, name);
        } else if !spec_valid_header_value(pairs[0].1@) {
        } else {
            let m2 = RequestModel {
                headers: m.headers.push((pairs[0].0@, pairs[0].1@)),
                ..m
            };
            lemma_lookup_unchanged_by_push(m.headers, name, (pairs[0].0@, pairs[0].1@));
            lemma_if_absent_preserves_existing(pairs.drop_first(), m2, name);
        }
    }
}

} // verus!
