//! Content types and their negotiation from a header list.
use crate::cli::KV;
use crate::pairs::{pairs_of, Pair};
use crate::text::{
    chars_of, first_where, lemma_first_where_is, lower, lowercase, slice_text, trim, trim_range,
};
use vstd::prelude::*;

verus! {

/// The content types that the client knows.
#[derive(Debug, Clone, Copy, PartialEq, Eq, Structural)]
pub enum ContentType {
    Json,
    FormUrlEncoded,
    Multipart,
    Xml,
    Html,
    Text,
}

impl ContentType {
    /// The media type that stands for this content type in a header.
    pub open spec fn mime(self) -> Seq<char> {
        match self {
            ContentType::Json => "application/json"@,
            ContentType::FormUrlEncoded => "application/x-www-form-urlencoded"@,
            ContentType::Multipart => "multipart/form-data"@,
            ContentType::Xml => "application/xml"@,
            ContentType::Html => "text/html"@,
            ContentType::Text => "text/plain"@,
        }
    }

    /// The content type that the media type `s` stands for, if it is a known one.
    pub open spec fn of_mime(s: Seq<char>) -> Option<ContentType> {
        if s == "application/json"@ {
            Some(ContentType::Json)
        } else if s == "application/x-www-form-urlencoded"@ {
            Some(ContentType::FormUrlEncoded)
        } else if s == "multipart/form-data"@ {
            Some(ContentType::Multipart)
        } else if s == "application/xml"@ {
            Some(ContentType::Xml)
        } else if s == "text/html"@ {
            Some(ContentType::Html)
        } else if s == "text/plain"@ {
            Some(ContentType::Text)
        } else {
            None
        }
    }

    /// The media type of this content type.
    pub fn as_str(&self) -> (r: &'static str)
        ensures
            r@ == self.mime(),
    {
        match self {
            ContentType::Json => "application/json",
            ContentType::FormUrlEncoded => "application/x-www-form-urlencoded",
            ContentType::Multipart => "multipart/form-data",
            ContentType::Xml => "application/xml",
            ContentType::Html => "text/html",
            ContentType::Text => "text/plain",
        }
    }

    /// The content type named by the media type `s`.
    pub fn from_mime(s: &str) -> (r: Option<ContentType>)
        ensures
            r == Self::of_mime(s@),
    {
        if same_text(s, "application/json") {
            Some(ContentType::Json)
        } else if same_text(s, "application/x-www-form-urlencoded") {
            Some(ContentType::FormUrlEncoded)
        } else if same_text(s, "multipart/form-data") {
            Some(ContentType::Multipart)
        } else if same_text(s, "application/xml") {
            Some(ContentType::Xml)
        } else if same_text(s, "text/html") {
            Some(ContentType::Html)
        } else if same_text(s, "text/plain") {
            Some(ContentType::Text)
        } else {
            None
        }
    }

    /// Every content type is the one that its own media type names.
    pub proof fn lemma_mime_round_trip(self)
        ensures
            Self::of_mime(self.mime()) == Some(self),
    {
        reveal_strlit("application/json");
        reveal_strlit("application/x-www-form-urlencoded");
        reveal_strlit("multipart/form-data");
        reveal_strlit("application/xml");
        reveal_strlit("text/html");
        reveal_strlit("text/plain");
        let j = "application/json"@;
        let f = "application/x-www-form-urlencoded"@;
        let m = "multipart/form-data"@;
        let x = "application/xml"@;
        let h = "text/html"@;
        assert(j.len() != f.len() && j.len() != m.len() && j.len() != x.len() && j.len() != h.len());
        assert(f.len() != m.len() && f.len() != x.len() && f.len() != h.len());
        assert(m.len() != x.len() && m.len() != h.len());
        assert(x.len() != h.len());
        assert("text/plain"@.len() == 10);
    }
}

/// Whether two strings hold the same characters.
pub fn same_text(a: &str, b: &str) -> (r: bool)
    ensures
        r == (a@ == b@),
{
    let x = String::from_str(a);
    let y = String::from_str(b);
    x == y
}

/// The test for a header entry whose name is `content-type` in any case.
pub open spec fn names_content_type() -> spec_fn(Pair) -> bool {
    |e: Pair| lower(e.0) == "content-type"@
}

/// The test for the character that ends a media type in a header value.
pub open spec fn is_semicolon() -> spec_fn(char) -> bool {
    |c: char| c == ';'
}

/// The media type in a `content-type` value: what stands before the first
/// `;`, trimmed.
pub open spec fn media_type(value: Seq<char>) -> Seq<char> {
    trim(value.take(first_where(value, is_semicolon())))
}

/// The media type that the headers `h` declare: that of the first
/// `content-type` entry, or `application/json` where there is none.
pub open spec fn declared_type(h: Seq<Pair>) -> Seq<char> {
    let i = first_where(h, names_content_type());
    if 0 <= i < h.len() {
        media_type(h[i].1)
    } else {
        "application/json"@
    }
}

/// The content type under which a message with the headers `h` is read: the
/// declared one where it is known, `Json` otherwise.
pub open spec fn negotiated(h: Seq<Pair>) -> ContentType {
    match ContentType::of_mime(declared_type(h)) {
        Some(ct) => ct,
        None => ContentType::Json,
    }
}

/// The media type in one `content-type` value.
fn media_type_of(value: &str) -> (r: String)
    ensures
        r@ == media_type(value@),
{
    let v = chars_of(value);
    let mut i: usize = 0;
    while i < v.len() && v[i] != ';'
        invariant
            i <= v.len(),
            forall|j: int| 0 <= j < i ==> !is_semicolon()(#[trigger] v@[j]),
        decreases v.len() - i,
    {
        i += 1;
    }
    proof {
        lemma_first_where_is(v@, is_semicolon(), i as int);
        assert(v@.subrange(0, i as int) == v@.take(i as int));
    }
    let (a, b) = trim_range(&v, 0, i);
    slice_text(&v, a, b)
}

/// The media type that `headers` declare, `application/json` by default.
pub fn get_content_type(headers: &Vec<KV>) -> (r: String)
    ensures
        r@ == declared_type(pairs_of(headers@)),
{
    let ghost h = pairs_of(headers@);
    let mut i: usize = 0;
    while i < headers.len()
        invariant
            i <= headers.len(),
            h == pairs_of(headers@),
            forall|j: int| 0 <= j < i ==> !names_content_type()(#[trigger] h[j]),
        decreases headers.len() - i,
    {
        let name = lowercase(headers[i].key.as_str());
        if same_text(name.as_str(), "content-type") {
            proof {
                lemma_first_where_is(h, names_content_type(), i as int);
            }
            return media_type_of(headers[i].value.as_str());
        }
        i += 1;
    }
    proof {
        lemma_first_where_is(h, names_content_type(), i as int);
    }
    String::from_str("application/json")
}

/// The content type under which a message with `headers` is read.
pub fn negotiate(headers: &Vec<KV>) -> (r: ContentType)
    ensures
        r == negotiated(pairs_of(headers@)),
{
    let declared = get_content_type(headers);
    match ContentType::from_mime(declared.as_str()) {
        Some(ct) => ct,
        None => ContentType::Json,
    }
}

/// A media type of the client's own comes out of a header value as it went
/// in.
pub proof fn lemma_media_type_of_mime(ct: ContentType)
    ensures
        media_type(ct.mime()) == ct.mime(),
{
    reveal_strlit("application/json");
    reveal_strlit("application/x-www-form-urlencoded");
    reveal_strlit("multipart/form-data");
    reveal_strlit("application/xml");
    reveal_strlit("text/html");
    reveal_strlit("text/plain");
    let s = ct.mime();
    assert forall|j: int| 0 <= j < s.len() implies !is_semicolon()(#[trigger] s[j]) by {}
    lemma_first_where_is(s, is_semicolon(), s.len() as int);
    assert(s.take(s.len() as int) == s);
    crate::text::lemma_trim_fixed(s);
}

/// Where no header is named `content-type`, the declared media type is
/// `application/json` and the content type is `Json`.
pub proof fn lemma_undeclared_type(h: Seq<Pair>)
    requires
        forall|i: int| 0 <= i < h.len() ==> lower((#[trigger] h[i]).0) != "content-type"@,
    ensures
        declared_type(h) == "application/json"@,
        negotiated(h) == ContentType::Json,
{
    assert forall|i: int| 0 <= i < h.len() implies !names_content_type()(#[trigger] h[i]) by {}
    lemma_first_where_is(h, names_content_type(), h.len() as int);
}

/// A declared media type that is none of the client's own is read as `Json`.
pub proof fn lemma_unknown_type(h: Seq<Pair>)
    requires
        ContentType::of_mime(declared_type(h)) is None,
    ensures
        negotiated(h) == ContentType::Json,
{
}

} // verus!
