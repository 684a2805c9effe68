//! Classified parameters and the grammar that turns one command-line token
//! into a parameter.
use crate::aggregate::{
    aggregated_query, body_pairs, default_mime, header_pairs, lemma_query_override,
    lemma_request_header_names, lemma_request_headers, lower_names, query_pairs, request_headers,
};
use crate::error::ToolError;
use crate::pairs::{
    distinct_keys, has_key, lemma_key_index_is, lemma_merge_into, merge_into, merged, pairs_of,
    upsert, Pair,
};
use crate::text::{
    chars_of, first_where, has_prefix, lemma_first_where, lemma_first_where_is,
    lemma_trim_idempotent, lowercase, slice_text, starts_with, trim, trim_range,
};
use crate::utils::{same_text, ContentType};
use vstd::prelude::*;

verus! {

/// A key with its value.
#[derive(Debug, PartialEq, Eq)]
pub struct KV {
    pub key: String,
    pub value: String,
}

impl View for KV {
    type V = (Seq<char>, Seq<char>);

    open spec fn view(&self) -> (Seq<char>, Seq<char>) {
        (self.key@, self.value@)
    }
}

impl Clone for KV {
    fn clone(&self) -> (r: Self)
        ensures
            r == *self,
    {
        KV { key: self.key.clone(), value: self.value.clone() }
    }
}

/// A key/value pair together with the part of the request it belongs to.
#[derive(Debug, PartialEq, Eq)]
pub enum Param {
    Query(KV),
    Header(KV),
    Body(KV),
}

/// What a `Param` stands for: its class, its key and its value.
pub enum ParamView {
    Query(Seq<char>, Seq<char>),
    Header(Seq<char>, Seq<char>),
    Body(Seq<char>, Seq<char>),
}

impl View for Param {
    type V = ParamView;

    open spec fn view(&self) -> ParamView {
        match *self {
            Param::Query(kv) => ParamView::Query(kv.key@, kv.value@),
            Param::Header(kv) => ParamView::Header(kv.key@, kv.value@),
            Param::Body(kv) => ParamView::Body(kv.key@, kv.value@),
        }
    }
}

impl Clone for Param {
    fn clone(&self) -> (r: Self)
        ensures
            r == *self,
    {
        match self {
            Param::Query(kv) => Param::Query(kv.clone()),
            Param::Header(kv) => Param::Header(kv.clone()),
            Param::Body(kv) => Param::Body(kv.clone()),
        }
    }
}

impl Param {
    pub fn is_query(&self) -> (r: bool)
        ensures
            r == (self@ is Query),
    {
        matches!(*self, Self::Query(_))
    }

    pub fn is_header(&self) -> (r: bool)
        ensures
            r == (self@ is Header),
    {
        matches!(*self, Self::Header(_))
    }

    pub fn is_body(&self) -> (r: bool)
        ensures
            r == (self@ is Body),
    {
        matches!(*self, Self::Body(_))
    }
}

/// The test for a character that separates a key from its value.
pub open spec fn is_delimiter() -> spec_fn(char) -> bool {
    |c: char| c == ':' || c == '='
}

/// The parameter that the token `s` denotes, if it denotes one.
///
/// The first `:` or `=` ends the key. After `:` comes a header value. After
/// `==` comes a query value, after a single `=` a body value. Key and value
/// are trimmed; a token without delimiter or with an empty key denotes nothing.
pub open spec fn classify(s: Seq<char>) -> Option<ParamView> {
    let i = first_where(s, is_delimiter());
    let key = trim(s.take(i));
    if !(0 <= i < s.len()) || key.len() == 0 {
        None
    } else if s[i] == ':' {
        Some(ParamView::Header(key, trim(s.skip(i + 1))))
    } else if i + 1 < s.len() && s[i + 1] == '=' {
        Some(ParamView::Query(key, trim(s.skip(i + 2))))
    } else {
        Some(ParamView::Body(key, trim(s.skip(i + 1))))
    }
}

/// Index of the first `:` or `=` in `v`, or `v.len()` if there is none.
fn find_delimiter(v: &Vec<char>) -> (i: usize)
    ensures
        i == first_where(v@, is_delimiter()),
        i <= v.len(),
{
    let mut i: usize = 0;
    while i < v.len() && !(v[i] == ':' || v[i] == '=')
        invariant
            i <= v.len(),
            forall|j: int| 0 <= j < i ==> !is_delimiter()(#[trigger] v@[j]),
        decreases v.len() - i,
    {
        i += 1;
    }
    proof {
        lemma_first_where_is(v@, is_delimiter(), i as int);
    }
    i
}

/// Classifies one command-line token.
pub fn parse_kv(s: &str) -> (r: Result<Param, ToolError>)
    ensures
        match classify(s@) {
            Some(p) => r matches Ok(q) && q@ == p,
            None => r matches Err(ToolError::InvalidParameter(t)) && t@ == s@,
        },
{
    let v = chars_of(s);
    let n = v.len();
    let i = find_delimiter(&v);
    if i >= n {
        return Err(ToolError::InvalidParameter(s.to_owned()));
    }
    let (k0, k1) = trim_range(&v, 0, i);
    assert(v@.subrange(0, i as int) == v@.take(i as int));
    if k0 == k1 {
        return Err(ToolError::InvalidParameter(s.to_owned()));
    }
    let key = slice_text(&v, k0, k1);
    if v[i] == ':' {
        let (a, b) = trim_range(&v, i + 1, n);
        assert(v@.subrange(i + 1, n as int) == v@.skip(i + 1));
        Ok(Param::Header(KV { key, value: slice_text(&v, a, b) }))
    } else if i + 1 < n && v[i + 1] == '=' {
        let (a, b) = trim_range(&v, i + 2, n);
        assert(v@.subrange(i + 2, n as int) == v@.skip(i + 2));
        Ok(Param::Query(KV { key, value: slice_text(&v, a, b) }))
    } else {
        let (a, b) = trim_range(&v, i + 1, n);
        assert(v@.subrange(i + 1, n as int) == v@.skip(i + 1));
        Ok(Param::Body(KV { key, value: slice_text(&v, a, b) }))
    }
}

/// A key without delimiter, then a delimiter, then a value: the token is a
/// header after `:`, a query parameter after `==`, and a body field after a
/// single `=`, with the key and the value trimmed.
pub proof fn lemma_classify_forms(k: Seq<char>, v: Seq<char>)
    requires
        forall|j: int| 0 <= j < k.len() ==> !is_delimiter()(#[trigger] k[j]),
        trim(k).len() > 0,
    ensures
        classify(k + seq![':'] + v) == Some(ParamView::Header(trim(k), trim(v))),
        classify(k + seq!['=', '='] + v) == Some(ParamView::Query(trim(k), trim(v))),
        v.len() == 0 || v[0] != '=' ==> classify(k + seq!['='] + v) == Some(
            ParamView::Body(trim(k), trim(v)),
        ),
{
    let n = k.len() as int;
    let h = k + seq![':'] + v;
    lemma_first_where_is(h, is_delimiter(), n);
    assert(h.take(n) == k);
    assert(h.skip(n + 1) == v);
    let q = k + seq!['=', '='] + v;
    lemma_first_where_is(q, is_delimiter(), n);
    assert(q.take(n) == k);
    assert(q.skip(n + 2) == v);
    let b = k + seq!['='] + v;
    lemma_first_where_is(b, is_delimiter(), n);
    assert(b.take(n) == k);
    assert(b.skip(n + 1) == v);
}

/// The same for a key and a value that have no white space at their ends: they
/// come out as they went in.
pub proof fn lemma_classify_plain(k: Seq<char>, v: Seq<char>)
    requires
        k.len() > 0,
        forall|j: int| 0 <= j < k.len() ==> !is_delimiter()(#[trigger] k[j]),
        trim(k) == k,
        trim(v) == v,
    ensures
        classify(k + seq![':'] + v) == Some(ParamView::Header(k, v)),
        classify(k + seq!['=', '='] + v) == Some(ParamView::Query(k, v)),
        v.len() == 0 || v[0] != '=' ==> classify(k + seq!['='] + v) == Some(ParamView::Body(k, v)),
{
    lemma_classify_forms(k, v);
}

/// The key and the value of a parameter have no white space at their ends.
pub proof fn lemma_classify_trimmed(s: Seq<char>)
    ensures
        match classify(s) {
            Some(ParamView::Header(k, v)) | Some(ParamView::Query(k, v)) | Some(
                ParamView::Body(k, v),
            ) => trim(k) == k && trim(v) == v && k.len() > 0,
            None => true,
        },
{
    let i = first_where(s, is_delimiter());
    lemma_trim_idempotent(s.take(i));
    lemma_trim_idempotent(s.skip(i + 1));
    lemma_trim_idempotent(s.skip(i + 2));
}

/// What a sequence of `Param` stands for.
pub open spec fn params_of(v: Seq<Param>) -> Seq<ParamView> {
    v.map_values(|p: Param| p@)
}

/// The pairs `items`, each as a query parameter.
pub open spec fn as_queries(items: Seq<Pair>) -> Seq<ParamView> {
    items.map_values(|e: Pair| ParamView::Query(e.0, e.1))
}

/// A parsed URL of the `url` crate.
#[verifier::external_type_specification]
#[verifier::external_body]
pub struct ExUrl(url::Url);

/// The absolute URL that `url::Url::parse` reads from `s`, or `None` where it
/// reports a failure.
pub uninterp spec fn parsed_url(s: Seq<char>) -> Option<url::Url>;

/// The serialization of the URL `u`, as `url::Url::as_str` returns it.
pub uninterp spec fn url_string(u: url::Url) -> Seq<char>;

/// The name/value pairs of the query of the URL `u`, in order and decoded, as
/// `url::Url::query_pairs` yields them.
pub uninterp spec fn url_query(u: url::Url) -> Seq<Pair>;

/// What a vector of string pairs stands for.
pub open spec fn string_pairs(v: Seq<(String, String)>) -> Seq<Pair> {
    v.map_values(|e: (String, String)| (e.0@, e.1@))
}

/// Calls `url::Url::parse`. The result is `parsed_url` of the argument: the
/// parser reads nothing but its input.
#[verifier::external_body]
fn url_parse(s: &str) -> (r: Result<url::Url, url::ParseError>)
    ensures
        r matches Ok(u) ==> parsed_url(s@) == Some(u),
        r is Err ==> parsed_url(s@) is None,
{
    url::Url::parse(s)
}

/// Calls `url::Url::as_str`, which returns the serialization of the URL.
#[verifier::external_body]
fn url_text(u: &url::Url) -> (r: &str)
    ensures
        r@ == url_string(*u),
{
    u.as_str()
}

/// Calls `url::Url::query_pairs` and collects the owned pairs that it yields.
#[verifier::external_body]
fn url_pairs(u: &url::Url) -> (r: Vec<(String, String)>)
    ensures
        string_pairs(r@) == url_query(*u),
{
    u.query_pairs().into_owned().collect()
}

/// A target URL: the URL up to the end of its path, and the parameters of its
/// query string.
#[derive(Debug, PartialEq, Eq)]
pub struct UrlPart {
    pub url: String,
    pub query: Vec<Param>,
}

impl UrlPart {
    /// The URL holds no `?`, and every parameter is a query parameter.
    pub open spec fn wf(&self) -> bool {
        &&& !self.url@.contains('?')
        &&& forall|i: int| 0 <= i < self.query@.len() ==> (#[trigger] self.query@[i])@ is Query
    }
}

impl Clone for UrlPart {
    fn clone(&self) -> (r: Self)
        ensures
            r.url == self.url,
            r.query@ == self.query@,
    {
        let mut query: Vec<Param> = Vec::new();
        let mut i: usize = 0;
        while i < self.query.len()
            invariant
                i <= self.query.len(),
                query@ == self.query@.take(i as int),
            decreases self.query.len() - i,
        {
            query.push(self.query[i].clone());
            assert(self.query@.take(i + 1) == self.query@.take(i as int).push(self.query@[i as int]));
            i += 1;
        }
        assert(self.query@.take(self.query@.len() as int) == self.query@);
        UrlPart { url: self.url.clone(), query }
    }
}

/// The test for the character that ends the path of a serialized URL.
pub open spec fn ends_path() -> spec_fn(char) -> bool {
    |c: char| c == '?' || c == '#'
}

/// `s`, with `http://` in front unless it begins with `http://` or `https://`.
pub open spec fn with_scheme(s: Seq<char>) -> Seq<char> {
    if starts_with(s, "http://"@) || starts_with(s, "https://"@) {
        s
    } else {
        "http://"@ + s
    }
}

/// The serialized URL `u` up to the end of its path.
pub open spec fn base_of(u: Seq<char>) -> Seq<char> {
    u.take(first_where(u, ends_path()))
}

/// The URL and the query pairs that the target `s` stands for, or `None` where
/// `s` is no URL even with the default scheme.
pub open spec fn url_part(s: Seq<char>) -> Option<(Seq<char>, Seq<Pair>)> {
    match parsed_url(with_scheme(s)) {
        Some(u) => Some((base_of(url_string(u)), url_query(u))),
        None => None,
    }
}

/// `s`, with `http://` in front unless it begins with `http://` or `https://`.
pub fn with_default_scheme(s: &str) -> (r: String)
    ensures
        r@ == with_scheme(s@),
{
    let v = chars_of(s);
    let plain = chars_of("http://");
    let secure = chars_of("https://");
    if has_prefix(&v, &plain) || has_prefix(&v, &secure) {
        s.to_owned()
    } else {
        String::from_str("http://").concat(s)
    }
}

/// The serialized URL `u` up to the end of its path: without its query
/// string and without its fragment.
pub fn strip_query(u: &str) -> (r: String)
    ensures
        r@ == base_of(u@),
        !r@.contains('?'),
{
    let v = chars_of(u);
    let p = path_end(&v);
    let url = slice_text(&v, 0, p);
    proof {
        lemma_first_where(v@, ends_path());
        assert(v@.subrange(0, p as int) == v@.take(p as int));
        assert forall|j: int| 0 <= j < url@.len() implies url@[j] != '?' by {
            assert(!ends_path()(v@[j]));
        }
    }
    url
}

/// The pairs of a query string, each as a query parameter.
pub fn query_params(pairs: Vec<(String, String)>) -> (r: Vec<Param>)
    ensures
        params_of(r@) == as_queries(string_pairs(pairs@)),
        forall|j: int| 0 <= j < r@.len() ==> (#[trigger] r@[j])@ is Query,
{
    let ghost all = as_queries(string_pairs(pairs@));
    let mut query: Vec<Param> = Vec::new();
    let mut i: usize = 0;
    while i < pairs.len()
        invariant
            i <= pairs.len(),
            all == as_queries(string_pairs(pairs@)),
            params_of(query@) == all.take(i as int),
            forall|j: int| 0 <= j < query@.len() ==> (#[trigger] query@[j])@ is Query,
        decreases pairs.len() - i,
    {
        let kv = KV { key: pairs[i].0.clone(), value: pairs[i].1.clone() };
        let ghost before = params_of(query@);
        query.push(Param::Query(kv));
        assert(params_of(query@) == before.push(all[i as int]));
        assert(all.take(i + 1) == all.take(i as int).push(all[i as int]));
        i += 1;
    }
    assert(all.take(pairs.len() as int) == all);
    query
}

/// Splits a target into its URL and the parameters of its query string.
///
/// A target that begins with neither `http://` nor `https://` is read with
/// `http://` in front. What comes back is the normalized URL without query
/// string and fragment, and the decoded pairs of its query in their order.
pub fn parse_url(s: &str) -> (r: Result<UrlPart, ToolError>)
    ensures
        match url_part(s@) {
            Some((url, query)) => r matches Ok(p) && p.url@ == url && params_of(p.query@)
                == as_queries(query) && p.wf(),
            None => r matches Err(ToolError::InvalidUrl(_)),
        },
{
    let full = with_default_scheme(s);
    match url_parse(full.as_str()) {
        Err(e) => Err(ToolError::InvalidUrl(e)),
        Ok(parsed) => {
            let url = strip_query(url_text(&parsed));
            Ok(UrlPart { url, query: query_params(url_pairs(&parsed)) })
        },
    }
}

/// Index of the first `?` or `#` in `u`, or `u.len()`.
fn path_end(u: &Vec<char>) -> (i: usize)
    ensures
        i <= u.len(),
        i == first_where(u@, ends_path()),
{
    let mut i: usize = 0;
    while i < u.len() && !(u[i] == '?' || u[i] == '#')
        invariant
            i <= u.len(),
            forall|j: int| 0 <= j < i ==> !ends_path()(#[trigger] u@[j]),
        decreases u.len() - i,
    {
        i += 1;
    }
    proof {
        lemma_first_where_is(u@, ends_path(), i as int);
    }
    i
}

/// What the command line asks for: the target, the method, the mode flags and
/// the explicit parameters, in the order in which they were given.
#[derive(Debug)]
pub struct CurlArg {
    pub url_and_query: UrlPart,
    pub method: Option<String>,
    pub form: bool,
    pub multipart: bool,
    pub offline: bool,
    pub headers_and_body: Vec<Param>,
}

/// The parameters of a request, sorted into its three parts.
#[derive(Debug)]
pub struct ParsedArguments {
    /// The headers: one entry for each name, the names in lower case.
    pub headers: Vec<KV>,
    /// The query: one entry for each key.
    pub query: Vec<KV>,
    /// The body fields, as many as were given.
    pub body: Vec<KV>,
}

impl ParsedArguments {
    /// No header name and no query key occurs twice, the header names are in
    /// lower case, and one of the headers is `content-type`.
    pub open spec fn wf(&self) -> bool {
        &&& distinct_keys(pairs_of(self.headers@))
        &&& lower_names(pairs_of(self.headers@))
        &&& has_key(pairs_of(self.headers@), "content-type"@)
        &&& distinct_keys(pairs_of(self.query@))
    }
}

/// Puts the query parameters among `ps` into `out`, in order.
fn put_queries(out: &mut Vec<KV>, ps: &Vec<Param>)
    ensures
        pairs_of(final(out)@) == merge_into(
            pairs_of(old(out)@),
            query_pairs(params_of(ps@)),
        ),
{
    let ghost all = params_of(ps@);
    let mut i: usize = 0;
    while i < ps.len()
        invariant
            i <= ps.len(),
            all == params_of(ps@),
            pairs_of(out@) == merge_into(
                pairs_of(old(out)@),
                query_pairs(all.take(i as int)),
            ),
        decreases ps.len() - i,
    {
        proof {
            assert(all.take(i + 1).drop_last() == all.take(i as int));
            assert(all.take(i + 1).last() == ps@[i as int]@);
        }
        match &ps[i] {
            Param::Query(kv) => {
                proof {
                    let q = query_pairs(all.take(i as int));
                    assert(q.push(kv@).drop_last() == q);
                }
                upsert(out, kv.clone());
            },
            _ => {},
        }
        i += 1;
    }
    assert(all.take(ps.len() as int) == all);
}

impl CurlArg {
    /// The URL of the target, without its query string.
    pub fn get_base_url(&self) -> (r: &str)
        ensures
            r@ == self.url_and_query.url@,
    {
        self.url_and_query.url.as_str()
    }

    /// The method of the request, `GET` where none was given.
    pub fn get_method(&self) -> (r: String)
        ensures
            r@ == (match self.method {
                Some(m) => m@,
                None => "GET"@,
            }),
    {
        match &self.method {
            Some(m) => m.clone(),
            None => String::from_str("GET"),
        }
    }

    /// The query of the request.
    pub fn get_query(&self) -> (r: Vec<KV>)
        ensures
            pairs_of(r@) == aggregated_query(
                params_of(self.url_and_query.query@),
                params_of(self.headers_and_body@),
            ),
    {
        let mut out: Vec<KV> = Vec::new();
        put_queries(&mut out, &self.url_and_query.query);
        put_queries(&mut out, &self.headers_and_body);
        proof {
            let a = query_pairs(params_of(self.url_and_query.query@));
            let b = query_pairs(params_of(self.headers_and_body@));
            assert(pairs_of(Seq::<KV>::empty()) == Seq::<Pair>::empty());
            lemma_merge_into(Seq::empty(), a);
            assert(Seq::<Pair>::empty() + a == a);
            lemma_merge_into(a, b);
        }
        out
    }

    /// The headers of the request.
    pub fn get_headers(&self) -> (r: Vec<KV>)
        ensures
            pairs_of(r@) == request_headers(
                params_of(self.headers_and_body@),
                self.form,
                self.multipart,
            ),
    {
        let ps = &self.headers_and_body;
        let ghost all = params_of(ps@);
        let mut out: Vec<KV> = Vec::new();
        let mut i: usize = 0;
        assert(pairs_of(out@) == Seq::<Pair>::empty());
        while i < ps.len()
            invariant
                i <= ps.len(),
                all == params_of(ps@),
                pairs_of(out@) == merged(header_pairs(all.take(i as int))),
            decreases ps.len() - i,
        {
            proof {
                assert(all.take(i + 1).drop_last() == all.take(i as int));
                assert(all.take(i + 1).last() == ps@[i as int]@);
            }
            match &ps[i] {
                Param::Header(kv) => {
                    let name = lowercase(kv.key.as_str());
                    proof {
                        let h = header_pairs(all.take(i as int));
                        assert(h.push((name@, kv.value@)).drop_last() == h);
                    }
                    upsert(&mut out, KV { key: name, value: kv.value.clone() });
                },
                _ => {},
            }
            i += 1;
        }
        assert(all.take(ps.len() as int) == all);
        let ghost h = pairs_of(out@);
        let mut j: usize = 0;
        while j < out.len() && !same_text(out[j].key.as_str(), "content-type")
            invariant
                j <= out.len(),
                h == pairs_of(out@),
                forall|n: int| 0 <= n < j ==> (#[trigger] h[n]).0 != "content-type"@,
            decreases out.len() - j,
        {
            j += 1;
        }
        proof {
            lemma_key_index_is(h, "content-type"@, j as int);
        }
        if j == out.len() {
            let mime = if self.form {
                ContentType::FormUrlEncoded.as_str()
            } else if self.multipart {
                ContentType::Multipart.as_str()
            } else {
                ContentType::Json.as_str()
            };
            out.push(KV { key: String::from_str("content-type"), value: String::from_str(mime) });
            assert(pairs_of(out@) == h.push(("content-type"@, default_mime(self.form, self.multipart))));
        }
        out
    }

    /// The parameters of the request: those of the URL's query string and the
    /// explicit ones, merged and sorted into headers, query and body.
    pub fn aggregate(&self) -> (r: ParsedArguments)
        ensures
            r.wf(),
            pairs_of(r.headers@) == request_headers(
                params_of(self.headers_and_body@),
                self.form,
                self.multipart,
            ),
            pairs_of(r.query@) == aggregated_query(
                params_of(self.url_and_query.query@),
                params_of(self.headers_and_body@),
            ),
            pairs_of(r.body@) == body_pairs(params_of(self.headers_and_body@)),
    {
        proof {
            let explicit = params_of(self.headers_and_body@);
            lemma_request_headers(explicit, self.form, self.multipart);
            lemma_request_header_names(explicit, self.form, self.multipart);
            lemma_query_override(params_of(self.url_and_query.query@), explicit, Seq::empty());
        }
        ParsedArguments {
            headers: self.get_headers(),
            query: self.get_query(),
            body: self.get_body(),
        }
    }

    /// The body fields of the request, in the order in which they were given.
    pub fn get_body(&self) -> (r: Vec<KV>)
        ensures
            pairs_of(r@) == body_pairs(params_of(self.headers_and_body@)),
    {
        let ps = &self.headers_and_body;
        let ghost all = params_of(ps@);
        let mut out: Vec<KV> = Vec::new();
        let mut i: usize = 0;
        assert(pairs_of(out@) == Seq::<Pair>::empty());
        while i < ps.len()
            invariant
                i <= ps.len(),
                all == params_of(ps@),
                pairs_of(out@) == body_pairs(all.take(i as int)),
            decreases ps.len() - i,
        {
            proof {
                assert(all.take(i + 1).drop_last() == all.take(i as int));
                assert(all.take(i + 1).last() == ps@[i as int]@);
            }
            match &ps[i] {
                Param::Body(kv) => {
                    let ghost before = pairs_of(out@);
                    out.push(kv.clone());
                    assert(pairs_of(out@) == before.push(kv@));
                },
                _ => {},
            }
            i += 1;
        }
        assert(all.take(ps.len() as int) == all);
        out
    }
}

} // verus!
