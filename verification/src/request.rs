//! The body of an outgoing request, and the request that a command line asks
//! for.
use crate::aggregate::{
    aggregated_query, body_pairs, header_pairs, lemma_request_type, request_headers,
};
use crate::cli::{params_of, CurlArg, ParamView, KV};
use crate::error::ToolError;
use crate::pairs::{
    distinct_keys, last_value, lemma_merged_distinct, merged, pairs_of, upsert, Pair,
};
use crate::utils::{declared_type, get_content_type, media_type, ContentType};
use vstd::prelude::*;

verus! {

/// The failure that `serde_qs` reports.
#[verifier::external_type_specification]
#[verifier::external_body]
pub struct ExQueryStringError(serde_qs::Error);

/// The compact JSON text that `serde_json::to_string` writes for the object
/// whose members are the string values `pairs`, or `None` where it reports a
/// failure.
pub uninterp spec fn json_object_text(pairs: Seq<Pair>) -> Option<Seq<char>>;

/// The text that the `serde_qs` serializer writes for a map whose entries are
/// `pairs`, in that order, or `None` where it reports a failure.
pub uninterp spec fn query_string_text(pairs: Seq<Pair>) -> Option<Seq<char>>;

/// Collects `pairs` into a `serde_json::Value::Object` of string values and
/// calls `serde_json::to_string` on it. The keys are distinct, so each pair is
/// one member of the object; the result is `json_object_text` of the pairs.
#[verifier::external_body]
fn json_object(pairs: &Vec<KV>) -> (r: Result<String, serde_json::Error>)
    requires
        distinct_keys(pairs_of(pairs@)),
    ensures
        r matches Ok(t) ==> json_object_text(pairs_of(pairs@)) == Some(t@),
        r is Err ==> json_object_text(pairs_of(pairs@)) is None,
{
    let members =
        pairs.iter().map(|kv| (kv.key.clone(), serde_json::Value::String(kv.value.clone())));
    serde_json::to_string(&serde_json::Value::Object(members.collect()))
}

/// Hands `pairs`, in order, to `serde::Serializer::collect_map` on a
/// `serde_qs::Serializer` with the default configuration, and reads the bytes
/// it wrote as a string. The result is `query_string_text` of the pairs.
#[verifier::external_body]
fn query_string(pairs: &Vec<KV>) -> (r: Result<String, serde_qs::Error>)
    ensures
        r matches Ok(t) ==> query_string_text(pairs_of(pairs@)) == Some(t@),
        r is Err ==> query_string_text(pairs_of(pairs@)) is None,
{
    let mut out: Vec<u8> = Vec::new();
    let mut writer = serde_qs::Serializer::new(&mut out, serde_qs::Config::default());
    serde::Serializer::collect_map(&mut writer, pairs.iter().map(|kv| (&kv.key, &kv.value)))?;
    String::from_utf8(out).map_err(serde_qs::Error::from)
}

/// What encoding a body comes to.
pub enum Encoded {
    /// The body, encoded.
    Text(Seq<char>),
    /// No encoder exists for this media type.
    Unsupported(Seq<char>),
    /// The encoder reported a failure.
    Failed,
}

/// The description that goes with a body that an encoder could not write.
pub open spec fn encoder_failure() -> Seq<char> {
    "the body could not be serialized"@
}

/// The encoding of the body fields `body` under the content type `ct`.
///
/// Under `Json` the fields are the members of one object, the last value of a
/// key replacing the earlier ones. Under `FormUrlEncoded` and `Multipart` they
/// are the entries of one query string, all of them, in order. No other
/// content type has an encoder.
pub open spec fn encoded(body: Seq<Pair>, ct: ContentType) -> Encoded {
    match ct {
        ContentType::Json => match json_object_text(merged(body)) {
            Some(t) => Encoded::Text(t),
            None => Encoded::Failed,
        },
        ContentType::FormUrlEncoded | ContentType::Multipart => match query_string_text(body) {
            Some(t) => Encoded::Text(t),
            None => Encoded::Failed,
        },
        _ => Encoded::Unsupported(ct.mime()),
    }
}

/// Whether `r` reports the outcome `e`.
pub open spec fn reports(r: Result<String, ToolError>, e: Encoded) -> bool {
    match e {
        Encoded::Text(t) => r matches Ok(s) && s@ == t,
        Encoded::Unsupported(m) => r matches Err(ToolError::UnsupportedEncoding(x)) && x@ == m,
        Encoded::Failed => r matches Err(ToolError::RenderError(x)) && x@ == encoder_failure(),
    }
}

/// `pairs` merged: one entry for each key, with its last value, at the place
/// of its first entry.
pub fn merge(pairs: &Vec<KV>) -> (r: Vec<KV>)
    ensures
        pairs_of(r@) == merged(pairs_of(pairs@)),
{
    let ghost all = pairs_of(pairs@);
    let mut out: Vec<KV> = Vec::new();
    let mut i: usize = 0;
    assert(pairs_of(out@) == Seq::<Pair>::empty());
    while i < pairs.len()
        invariant
            i <= pairs.len(),
            all == pairs_of(pairs@),
            pairs_of(out@) == merged(all.take(i as int)),
        decreases pairs.len() - i,
    {
        assert(all.take(i + 1).drop_last() == all.take(i as int));
        upsert(&mut out, pairs[i].clone());
        i += 1;
    }
    assert(all.take(pairs.len() as int) == all);
    out
}

/// Encodes the body fields `body` for a request of content type `ct`.
pub fn encode_body(body: &Vec<KV>, ct: ContentType) -> (r: Result<String, ToolError>)
    ensures
        reports(r, encoded(pairs_of(body@), ct)),
{
    match ct {
        ContentType::Json => {
            let members = merge(body);
            proof {
                lemma_merged_distinct(pairs_of(body@));
            }
            match json_object(&members) {
                Ok(text) => Ok(text),
                Err(_) => Err(
                    ToolError::RenderError(String::from_str("the body could not be serialized")),
                ),
            }
        },
        ContentType::FormUrlEncoded | ContentType::Multipart => match query_string(body) {
            Ok(text) => Ok(text),
            Err(_) => Err(
                ToolError::RenderError(String::from_str("the body could not be serialized")),
            ),
        },
        _ => Err(ToolError::UnsupportedEncoding(String::from_str(ct.as_str()))),
    }
}

/// The encoding of `body` for a request with the headers `headers`: that under
/// the content type they declare, which has no encoder where it is not a known
/// one.
pub open spec fn request_body(headers: Seq<Pair>, body: Seq<Pair>) -> Encoded {
    match ContentType::of_mime(declared_type(headers)) {
        Some(ct) => encoded(body, ct),
        None => Encoded::Unsupported(declared_type(headers)),
    }
}

impl CurlArg {
    /// The headers that this command line asks for.
    pub open spec fn headers_spec(&self) -> Seq<Pair> {
        request_headers(params_of(self.headers_and_body@), self.form, self.multipart)
    }

    /// The query that this command line asks for.
    pub open spec fn query_spec(&self) -> Seq<Pair> {
        aggregated_query(params_of(self.url_and_query.query@), params_of(self.headers_and_body@))
    }

    /// The body fields that this command line asks for.
    pub open spec fn body_spec(&self) -> Seq<Pair> {
        body_pairs(params_of(self.headers_and_body@))
    }

    /// The headers, the query and the encoded body of the request.
    ///
    /// Fails before anything is sent where the declared content type has no
    /// body encoder.
    pub fn generate(&self) -> (r: Result<(Vec<KV>, Vec<KV>, String), ToolError>)
        ensures
            match request_body(self.headers_spec(), self.body_spec()) {
                Encoded::Text(t) => r matches Ok(parts) && pairs_of(parts.0@)
                    == self.headers_spec() && pairs_of(parts.1@) == self.query_spec() && parts.2@
                    == t,
                Encoded::Unsupported(m) => r matches Err(ToolError::UnsupportedEncoding(x)) && x@
                    == m,
                Encoded::Failed => r matches Err(ToolError::RenderError(x)) && x@
                    == encoder_failure(),
            },
    {
        let parts = self.aggregate();
        let declared = get_content_type(&parts.headers);
        let body = match ContentType::from_mime(declared.as_str()) {
            Some(ct) => encode_body(&parts.body, ct),
            None => Err(ToolError::UnsupportedEncoding(declared)),
        };
        match body {
            Ok(text) => Ok((parts.headers, parts.query, text)),
            Err(e) => Err(e),
        }
    }
}

/// The content type of a request that no header declares: that of the mode.
pub open spec fn default_type(form: bool, multipart: bool) -> ContentType {
    if form {
        ContentType::FormUrlEncoded
    } else if multipart {
        ContentType::Multipart
    } else {
        ContentType::Json
    }
}

/// Where no explicit header declares a content type, the body is encoded
/// under the content type of the mode: as a query string in form and in
/// multipart mode, as JSON otherwise.
pub proof fn lemma_body_by_mode(
    explicit: Seq<ParamView>,
    form: bool,
    multipart: bool,
    body: Seq<Pair>,
)
    requires
        last_value(header_pairs(explicit), "content-type"@) is None,
    ensures
        request_body(request_headers(explicit, form, multipart), body) == encoded(
            body,
            default_type(form, multipart),
        ),
{
    lemma_request_type(explicit, form, multipart);
    default_type(form, multipart).lemma_mime_round_trip();
}

/// Where the last explicit `content-type` header declares a media type, the
/// body is encoded under it, whatever the mode. A media type other than
/// `application/json`, `application/x-www-form-urlencoded` and
/// `multipart/form-data` has no encoder, and the failure names it.
pub proof fn lemma_body_by_header(
    explicit: Seq<ParamView>,
    form: bool,
    multipart: bool,
    body: Seq<Pair>,
)
    requires
        last_value(header_pairs(explicit), "content-type"@) is Some,
    ensures
        ({
            let declared = media_type(last_value(header_pairs(explicit), "content-type"@)->0);
            request_body(request_headers(explicit, form, multipart), body) == (
            match ContentType::of_mime(declared) {
                Some(ContentType::Json) => encoded(body, ContentType::Json),
                Some(ContentType::FormUrlEncoded) => encoded(body, ContentType::FormUrlEncoded),
                Some(ContentType::Multipart) => encoded(body, ContentType::Multipart),
                _ => Encoded::Unsupported(declared),
            })
        }),
{
    lemma_request_type(explicit, form, multipart);
}

} // verus!
