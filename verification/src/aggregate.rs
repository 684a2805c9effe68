//! How the parameters of a command line become the query, the headers and
//! the body fields of a request, and what holds of the result.
use crate::cli::{as_queries, url_part, ParamView};
use crate::pairs::{
    distinct_keys, has_key, key_index, last_value, lemma_key_index, lemma_key_index_is,
    lemma_last_value_concat, lemma_last_value_some, lemma_merged_distinct, lemma_merged_entries,
    lemma_merged_identity, lemma_merged_last_wins, lemma_merged_order, merged, value_of, Pair,
};
use crate::text::{lemma_first_where_is, lemma_lower_idempotent, lower};
use crate::utils::{
    declared_type, lemma_media_type_of_mime, media_type, names_content_type, ContentType,
};
use vstd::prelude::*;

verus! {

/// The query parameters among `ps`, in order.
pub open spec fn query_pairs(ps: Seq<ParamView>) -> Seq<Pair>
    decreases ps.len(),
{
    if ps.len() == 0 {
        Seq::empty()
    } else {
        match ps.last() {
            ParamView::Query(k, v) => query_pairs(ps.drop_last()).push((k, v)),
            _ => query_pairs(ps.drop_last()),
        }
    }
}

/// The headers among `ps`, in order, with their names in lower case.
pub open spec fn header_pairs(ps: Seq<ParamView>) -> Seq<Pair>
    decreases ps.len(),
{
    if ps.len() == 0 {
        Seq::empty()
    } else {
        match ps.last() {
            ParamView::Header(k, v) => header_pairs(ps.drop_last()).push((lower(k), v)),
            _ => header_pairs(ps.drop_last()),
        }
    }
}

/// The body fields among `ps`, in order.
pub open spec fn body_pairs(ps: Seq<ParamView>) -> Seq<Pair>
    decreases ps.len(),
{
    if ps.len() == 0 {
        Seq::empty()
    } else {
        match ps.last() {
            ParamView::Body(k, v) => body_pairs(ps.drop_last()).push((k, v)),
            _ => body_pairs(ps.drop_last()),
        }
    }
}

/// The query of a request: the parameters of the URL's query string, then the
/// explicit query parameters, a later value for a key replacing the earlier
/// one in place.
pub open spec fn aggregated_query(url_query: Seq<ParamView>, explicit: Seq<ParamView>) -> Seq<
    Pair,
> {
    merged(query_pairs(url_query) + query_pairs(explicit))
}

/// The media type that a request gets where no header names one.
pub open spec fn default_mime(form: bool, multipart: bool) -> Seq<char> {
    if form {
        ContentType::FormUrlEncoded.mime()
    } else if multipart {
        ContentType::Multipart.mime()
    } else {
        ContentType::Json.mime()
    }
}

/// The headers of a request: the explicit headers, a later value for a name
/// replacing the earlier one in place, and then a `content-type` where no
/// explicit header gave one.
pub open spec fn request_headers(explicit: Seq<ParamView>, form: bool, multipart: bool) -> Seq<
    Pair,
> {
    let h = merged(header_pairs(explicit));
    if has_key(h, "content-type"@) {
        h
    } else {
        h.push(("content-type"@, default_mime(form, multipart)))
    }
}

/// Where the keys of the URL's query are distinct and no explicit query
/// parameter is given, the query of the request is the query of the URL,
/// entry for entry and in the same order.
pub proof fn lemma_query_round_trip(url_query: Seq<ParamView>, explicit: Seq<ParamView>)
    requires
        distinct_keys(query_pairs(url_query)),
        query_pairs(explicit).len() == 0,
    ensures
        aggregated_query(url_query, explicit) == query_pairs(url_query),
{
    let a = query_pairs(url_query);
    assert(a + query_pairs(explicit) == a);
    lemma_merged_identity(a);
}

/// The query parameters among the parameters of a URL are all of them.
pub proof fn lemma_queries_of_url(q: Seq<Pair>)
    ensures
        query_pairs(as_queries(q)) == q,
    decreases q.len(),
{
    if q.len() > 0 {
        lemma_queries_of_url(q.drop_last());
        assert(as_queries(q).drop_last() == as_queries(q.drop_last()));
        assert(q.drop_last().push(q.last()) == q);
    }
}

/// A target whose query names each key once, with no explicit query parameter
/// beside it, gives a request with the very query of the target: the same
/// pairs in the same order.
pub proof fn lemma_url_round_trip(
    s: Seq<char>,
    url: Seq<char>,
    query: Seq<Pair>,
    explicit: Seq<ParamView>,
)
    requires
        url_part(s) == Some((url, query)),
        distinct_keys(query),
        query_pairs(explicit).len() == 0,
    ensures
        aggregated_query(as_queries(query), explicit) == query,
{
    lemma_queries_of_url(query);
    lemma_query_round_trip(as_queries(query), explicit);
}

/// The query of a request has one entry for each key. Its value is the last
/// one among the explicit parameters where these name the key, and the last
/// one in the URL's query otherwise.
pub proof fn lemma_query_override(
    url_query: Seq<ParamView>,
    explicit: Seq<ParamView>,
    k: Seq<char>,
)
    ensures
        distinct_keys(aggregated_query(url_query, explicit)),
        value_of(aggregated_query(url_query, explicit), k) == (if has_key(
            query_pairs(explicit),
            k,
        ) {
            last_value(query_pairs(explicit), k)
        } else {
            last_value(query_pairs(url_query), k)
        }),
{
    let a = query_pairs(url_query);
    let b = query_pairs(explicit);
    lemma_merged_distinct(a + b);
    lemma_merged_last_wins(a + b, k);
    lemma_last_value_concat(a, b, k);
    lemma_last_value_some(b, k);
}

/// The keys of the query of a request stand in the order in which the URL's
/// query and then the explicit parameters first name them.
pub proof fn lemma_query_order(
    url_query: Seq<ParamView>,
    explicit: Seq<ParamView>,
    a: Seq<char>,
    b: Seq<char>,
)
    requires
        has_key(query_pairs(url_query) + query_pairs(explicit), a),
        has_key(query_pairs(url_query) + query_pairs(explicit), b),
    ensures
        has_key(aggregated_query(url_query, explicit), a),
        has_key(aggregated_query(url_query, explicit), b),
        key_index(aggregated_query(url_query, explicit), a) < key_index(
            aggregated_query(url_query, explicit),
            b,
        ) <==> key_index(query_pairs(url_query) + query_pairs(explicit), a)
            < key_index(query_pairs(url_query) + query_pairs(explicit), b),
{
    lemma_merged_order(query_pairs(url_query) + query_pairs(explicit), a, b);
}

/// The body fields of a request are the explicit body fields: as many, in the
/// same order, with no key merged.
pub proof fn lemma_body_keeps_all(ps: Seq<ParamView>, k: Seq<char>, v: Seq<char>)
    ensures
        body_pairs(ps.push(ParamView::Body(k, v))) == body_pairs(ps).push((k, v)),
        body_pairs(ps.push(ParamView::Query(k, v))) == body_pairs(ps),
        body_pairs(ps.push(ParamView::Header(k, v))) == body_pairs(ps),
{
    assert(ps.push(ParamView::Body(k, v)).drop_last() == ps);
    assert(ps.push(ParamView::Query(k, v)).drop_last() == ps);
    assert(ps.push(ParamView::Header(k, v)).drop_last() == ps);
}

/// Every header name among `header_pairs` is in lower case.
pub proof fn lemma_header_names_lower(ps: Seq<ParamView>, i: int)
    requires
        0 <= i < header_pairs(ps).len(),
    ensures
        lower(header_pairs(ps)[i].0) == header_pairs(ps)[i].0,
    decreases ps.len(),
{
    if ps.len() > 0 {
        let init = header_pairs(ps.drop_last());
        if i < init.len() {
            lemma_header_names_lower(ps.drop_last(), i);
        } else {
            match ps.last() {
                ParamView::Header(k, v) => {
                    lemma_lower_idempotent(k);
                },
                _ => {},
            }
        }
    }
}

/// Every name in `h` is in lower case.
pub open spec fn lower_names(h: Seq<Pair>) -> bool {
    forall|i: int| 0 <= i < h.len() ==> lower((#[trigger] h[i]).0) == h[i].0
}

/// The names of the headers of a request are in lower case.
pub proof fn lemma_request_header_names(explicit: Seq<ParamView>, form: bool, multipart: bool)
    ensures
        lower_names(request_headers(explicit, form, multipart)),
{
    let items = header_pairs(explicit);
    let h = merged(items);
    let r = request_headers(explicit, form, multipart);
    reveal_strlit("content-type");
    assert(lower("content-type"@) =~= "content-type"@);
    assert forall|i: int| 0 <= i < r.len() implies lower((#[trigger] r[i]).0) == r[i].0 by {
        if i < h.len() {
            assert(r[i] == h[i]);
            lemma_merged_entries(items, i);
            let m = choose|m: int| 0 <= m < items.len() && items[m] == h[i];
            lemma_header_names_lower(explicit, m);
        }
    }
}

/// The headers of a request have one entry for each name, and one of them is
/// `content-type`. Its value is the last one that an explicit header gives
/// it, in whatever case the header is written; where none does, it is
/// `application/x-www-form-urlencoded` in form mode, else
/// `multipart/form-data` in multipart mode, else `application/json`.
pub proof fn lemma_request_headers(explicit: Seq<ParamView>, form: bool, multipart: bool)
    ensures
        distinct_keys(request_headers(explicit, form, multipart)),
        value_of(request_headers(explicit, form, multipart), "content-type"@) == Some(
            match last_value(header_pairs(explicit), "content-type"@) {
                Some(v) => v,
                None => default_mime(form, multipart),
            },
        ),
{
    let items = header_pairs(explicit);
    let h = merged(items);
    let k = "content-type"@;
    let r = request_headers(explicit, form, multipart);
    lemma_merged_distinct(items);
    lemma_merged_last_wins(items, k);
    lemma_key_index(h, k);
    if !has_key(h, k) {
        assert forall|i: int, j: int| 0 <= i < j < r.len() implies (#[trigger] r[i]).0 != (
        #[trigger] r[j]).0 by {
            assert(r[i] == h[i]);
            if j < h.len() {
                assert(r[j] == h[j]);
            }
        }
        assert forall|j: int| 0 <= j < h.len() implies (#[trigger] r[j]).0 != k by {
            assert(r[j] == h[j]);
        }
        lemma_key_index_is(r, k, h.len() as int);
    }
}

/// The media type that the headers of a request declare is the one in the last
/// explicit `content-type` header, and the default of the mode where there is
/// no such header: an explicit content type always wins.
pub proof fn lemma_request_type(explicit: Seq<ParamView>, form: bool, multipart: bool)
    ensures
        declared_type(request_headers(explicit, form, multipart)) == (
        match last_value(header_pairs(explicit), "content-type"@) {
            Some(v) => media_type(v),
            None => default_mime(form, multipart),
        }),
{
    let items = header_pairs(explicit);
    let h = merged(items);
    let k = "content-type"@;
    let r = request_headers(explicit, form, multipart);
    lemma_request_headers(explicit, form, multipart);
    lemma_key_index(r, k);
    let n = key_index(r, k);
    reveal_strlit("content-type");
    lemma_lower_idempotent(k);
    assert(lower(k) =~= k);
    assert forall|j: int| 0 <= j < n implies !names_content_type()(
        #[trigger] r[j],
    ) by {
        assert(r[j] == h[j]);
        lemma_merged_entries(items, j);
        let m = choose|m: int| 0 <= m < items.len() && items[m] == h[j];
        lemma_header_names_lower(explicit, m);
    }
    assert(names_content_type()(r[n]));
    lemma_first_where_is(r, names_content_type(), n);
    if last_value(items, k) is None {
        if form {
            lemma_media_type_of_mime(ContentType::FormUrlEncoded);
        } else if multipart {
            lemma_media_type_of_mime(ContentType::Multipart);
        } else {
            lemma_media_type_of_mime(ContentType::Json);
        }
    }
}

} // verus!
