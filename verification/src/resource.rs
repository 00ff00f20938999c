//! The resource handle: classification of a request path against the
//! filesystem, and the body, content-type and etag of the classified
//! resource.

use vstd::prelude::*;

use crate::etag::{decimal_of, fnv1a, fnv1a_hash, is_decimal_char, lemma_decimal_injective,
    lemma_decimal_shape, timestamp_bytes, ts_bytes, u64_to_decimal, Timestamp};
use crate::path::{extension_of, extension_part, str_eq, strip_leading_separator};

verus! {

/// A classified resource: an existing regular file recognized as structured
/// linked data, an existing regular file of any other kind, or nothing.
/// The variant is decided once, at resolution time, and the handle is
/// immutable afterwards.
#[derive(Debug)]
pub enum Resource {
    RDFSource(String),
    NonRDF(String),
    NotFound,
}

/// The media type registered for an extension: `ttl` and `jsonld` are the
/// recognized structured-data formats; everything else has none.
pub open spec fn media_type_of(e: Seq<char>) -> Option<Seq<char>> {
    if e == "ttl"@ {
        Some("text/turtle"@)
    } else if e == "jsonld"@ {
        Some("application/ld+json"@)
    } else {
        None
    }
}

/// Whether a filesystem path names a structured resource: its extension is a
/// recognized structured-data format.
pub open spec fn is_structured_path(p: Seq<char>) -> bool {
    match extension_of(p) {
        Some(e) => media_type_of(e) is Some,
        None => false,
    }
}

/// The single extension-to-media-type lookup that both classification and
/// `content_type` use.
pub fn media_type_for_extension(ext: &str) -> (r: Option<&'static str>)
    ensures
        match media_type_of(ext@) {
            Some(m) => r matches Some(s) && s@ == m,
            None => r is None,
        },
{
    if str_eq(ext, "ttl") {
        Some("text/turtle")
    } else if str_eq(ext, "jsonld") {
        Some("application/ld+json")
    } else {
        None
    }
}

/// The filesystem path a request path maps to: the request path with one
/// leading separator stripped. The caller checks this path against the
/// filesystem before classifying.
pub fn target_path(path: &str) -> (r: String)
    ensures
        r@ == strip_leading_separator(path@),
{
    let n = path.unicode_len();
    if n > 0 && path.get_char(0) == '/' {
        String::from_str(path.substring_char(1, n))
    } else {
        String::from_str(path)
    }
}

impl Resource {
    /// Classifies a request path. `is_file` is the caller's one filesystem
    /// check: whether the target path exists and is a regular file. Anything
    /// that is not an existing regular file is `NotFound`; an existing file
    /// is `RDFSource` exactly when its extension is a recognized
    /// structured-data format, and `NonRDF` otherwise.
    pub fn from(path: &str, is_file: bool) -> (r: Resource)
        ensures
            !is_file ==> r is NotFound,
            is_file ==> !(r is NotFound),
            r matches Resource::RDFSource(p) ==> p@ == strip_leading_separator(path@)
                && is_structured_path(p@),
            r matches Resource::NonRDF(p) ==> p@ == strip_leading_separator(path@)
                && !is_structured_path(p@),
    {
        let target = target_path(path);
        if !is_file {
            return Resource::NotFound;
        }
        let structured = match extension_part(target.as_str()) {
            Some(ext) => media_type_for_extension(ext).is_some(),
            None => false,
        };
        if structured {
            Resource::RDFSource(target)
        } else {
            Resource::NonRDF(target)
        }
    }

    /// The content-type header value of the resource. Only a structured
    /// resource asserts one, and which it is follows from the extension
    /// through the same lookup classification used.
    pub fn content_type(&self) -> (r: Option<&str>)
        ensures
            match r {
                Some(s) => content_type_spec(*self) == Some(s@),
                None => content_type_spec(*self) is None,
            },
    {
        match self {
            Resource::NotFound => None,
            Resource::NonRDF(_) => None,
            Resource::RDFSource(p) => match extension_part(p.as_str()) {
                Some(ext) => media_type_for_extension(ext),
                None => None,
            },
        }
    }
}

/// The cause of a failed body read, as far as the filesystem distinguishes
/// causes. The caller translates the error of its read into one of these and
/// back; classification itself never fails.
#[derive(Clone, Copy, Debug, PartialEq, Eq, Structural)]
pub enum IoErrorKind {
    NotFoundError,
    PermissionDenied,
    Other,
}

/// The sentinel body of an absent resource: the ASCII bytes `NOT FOUND`.
pub open spec fn not_found_bytes() -> Seq<u8> {
    seq![78u8, 79u8, 84u8, 32u8, 70u8, 79u8, 85u8, 78u8, 68u8]
}

/// The `NOT FOUND` sentinel as a byte vector.
pub fn not_found_body() -> (r: Vec<u8>)
    ensures
        r@ == not_found_bytes(),
{
    let r: Vec<u8> = vec![78u8, 79u8, 84u8, 32u8, 70u8, 79u8, 85u8, 78u8, 68u8];
    proof {
        assert(r@ =~= not_found_bytes());
    }
    r
}

/// A read result at the level of byte sequences.
pub open spec fn result_bytes(r: Result<Vec<u8>, IoErrorKind>) -> Result<Seq<u8>, IoErrorKind> {
    match r {
        Ok(v) => Ok(v@),
        Err(e) => Err(e),
    }
}

/// The body a handle produces, given the outcome of the caller's file read
/// (`None` when the handle is absent and nothing was read): the sentinel for
/// an absent resource, and exactly the read outcome for an existing one.
pub open spec fn body_spec(
    res: Resource,
    read: Option<Result<Vec<u8>, IoErrorKind>>,
) -> Result<Seq<u8>, IoErrorKind> {
    match res {
        Resource::NotFound => Ok(not_found_bytes()),
        _ => match read {
            Some(rr) => result_bytes(rr),
            None => Err(IoErrorKind::Other),
        },
    }
}

impl Resource {
    /// The response body. For an existing file the caller reads the file and
    /// hands the outcome in `read`; the bytes, or the error, come back
    /// unchanged. An absent resource takes no read and yields the `NOT
    /// FOUND` sentinel with no error.
    pub fn to_body(&self, read: Option<Result<Vec<u8>, IoErrorKind>>) -> (r: Result<
        Vec<u8>,
        IoErrorKind,
    >)
        requires
            read is None ==> self is NotFound,
        ensures
            result_bytes(r) == body_spec(*self, read),
            self is NotFound ==> (r matches Ok(v) && v@ == not_found_bytes()),
    {
        match self {
            Resource::NotFound => Ok(not_found_body()),
            _ => match read {
                Some(rr) => rr,
                None => Err(IoErrorKind::Other),
            },
        }
    }

    /// The cache validator. For an existing file the caller queries the
    /// file's modification time and hands it over; the etag is the decimal
    /// rendering of a 64-bit FNV-1a hash of that timestamp. An absent
    /// resource, or a failed metadata query (`None`), degrades to the empty
    /// string: no validator, never an error.
    pub fn etag(&self, modified: Option<Timestamp>) -> (r: String)
        ensures
            r@ == etag_spec(*self, modified),
    {
        match self {
            Resource::NotFound => String::new(),
            _ => match modified {
                Some(t) => {
                    let bytes = timestamp_bytes(&t);
                    let h = fnv1a_hash(&bytes);
                    u64_to_decimal(h)
                },
                None => String::new(),
            },
        }
    }
}

/// The etag of a handle for a given modification-time query outcome: empty
/// for an absent resource or a failed query, else the decimal form of the
/// timestamp's 64-bit FNV-1a hash.
pub open spec fn etag_spec(res: Resource, modified: Option<Timestamp>) -> Seq<char> {
    match res {
        Resource::NotFound => Seq::empty(),
        _ => match modified {
            Some(t) => decimal_of(fnv1a(ts_bytes(t)) as nat),
            None => Seq::empty(),
        },
    }
}

/// The content type a handle asserts: the media type of a structured
/// resource's extension; nothing for opaque or absent resources.
pub open spec fn content_type_spec(res: Resource) -> Option<Seq<char>> {
    match res {
        Resource::RDFSource(p) => match extension_of(p@) {
            Some(e) => media_type_of(e),
            None => None,
        },
        Resource::NonRDF(_) => None,
        Resource::NotFound => None,
    }
}

/// Law: an absent resource's body is the `NOT FOUND` sentinel, with no
/// error, whatever read outcome is handed over.
pub proof fn lemma_absent_body(res: Resource, read: Option<Result<Vec<u8>, IoErrorKind>>)
    requires
        res is NotFound,
    ensures
        body_spec(res, read) == Ok::<Seq<u8>, IoErrorKind>(not_found_bytes()),
{
}

/// Law: an absent resource's etag is the empty string, whatever the
/// modification-time query returned.
pub proof fn lemma_absent_etag(res: Resource, modified: Option<Timestamp>)
    requires
        res is NotFound,
    ensures
        etag_spec(res, modified) == Seq::<char>::empty(),
{
}

/// Law: a path whose extension is `ttl` is a structured path — so an
/// existing file there classifies as `RDFSource` — and its handle asserts
/// the content type `text/turtle`.
pub proof fn lemma_turtle_content_type(p: String)
    requires
        extension_of(p@) == Some("ttl"@),
    ensures
        is_structured_path(p@),
        content_type_spec(Resource::RDFSource(p)) == Some("text/turtle"@),
{
}

/// Law: a path whose extension is `jsonld` is a structured path — so an
/// existing file there classifies as `RDFSource` — and its handle asserts
/// the content type `application/ld+json`.
pub proof fn lemma_json_ld_content_type(p: String)
    requires
        extension_of(p@) == Some("jsonld"@),
    ensures
        is_structured_path(p@),
        content_type_spec(Resource::RDFSource(p)) == Some("application/ld+json"@),
{
    reveal_strlit("ttl");
    reveal_strlit("jsonld");
    assert("jsonld"@.len() != "ttl"@.len());
}

/// Law: a path with an unrecognized extension, or none, is not structured —
/// so an existing file there classifies as `NonRDF` — and its handle asserts
/// no content type.
pub proof fn lemma_opaque_content_type(p: String)
    requires
        !is_structured_path(p@),
    ensures
        content_type_spec(Resource::NonRDF(p)) is None,
{
}

/// Law (round trip): the body of an existing resource is exactly what the
/// caller's file read produced, byte for byte.
pub proof fn lemma_body_round_trip(res: Resource, bytes: Vec<u8>)
    requires
        !(res is NotFound),
    ensures
        body_spec(res, Some(Ok(bytes))) == Ok::<Seq<u8>, IoErrorKind>(bytes@),
{
}

/// Law (determinism): the etag of an existing resource is a function of the
/// modification timestamp alone — the same unchanged timestamp yields the
/// same string on every call and for every file handle.
pub proof fn lemma_etag_deterministic(a: Resource, b: Resource, modified: Option<Timestamp>)
    requires
        !(a is NotFound),
        !(b is NotFound),
    ensures
        etag_spec(a, modified) == etag_spec(b, modified),
{
}

/// Law: the etag of an existing resource changes with its modification
/// timestamp whenever the timestamps' 64-bit hashes differ — a 64-bit hash
/// of a 96-bit timestamp cannot separate every colliding pair, so that much
/// is the guarantee the validator gives.
pub proof fn lemma_etag_separates_timestamps(res: Resource, t1: Timestamp, t2: Timestamp)
    requires
        !(res is NotFound),
        fnv1a(ts_bytes(t1)) != fnv1a(ts_bytes(t2)),
    ensures
        etag_spec(res, Some(t1)) != etag_spec(res, Some(t2)),
{
    if etag_spec(res, Some(t1)) == etag_spec(res, Some(t2)) {
        lemma_decimal_injective(fnv1a(ts_bytes(t1)) as nat, fnv1a(ts_bytes(t2)) as nat);
    }
}

/// Law: the etag of an existing resource with a known modification time is a
/// non-empty string of decimal digits.
pub proof fn lemma_etag_decimal_shape(res: Resource, t: Timestamp)
    requires
        !(res is NotFound),
    ensures
        etag_spec(res, Some(t)).len() > 0,
        forall|i: int| 0 <= i < etag_spec(res, Some(t)).len() ==> is_decimal_char(
            #[trigger] etag_spec(res, Some(t))[i],
        ),
{
    lemma_decimal_shape(fnv1a(ts_bytes(t)) as nat);
}

} // verus!
