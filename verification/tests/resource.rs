use ldp_resource::etag::Timestamp;
use ldp_resource::resource::{target_path, IoErrorKind, Resource};

fn ts(secs: u64, nanos: u32) -> Timestamp {
    Timestamp { secs, nanos }
}

#[test]
fn classify_missing_is_not_found() {
    assert!(matches!(Resource::from("/missing.json", false), Resource::NotFound));
    assert!(matches!(Resource::from("/doc.ttl", false), Resource::NotFound));
    assert!(matches!(Resource::from("/some/dir", false), Resource::NotFound));
    assert!(matches!(Resource::from("", false), Resource::NotFound));
}

#[test]
fn classify_ttl_is_structured() {
    let r = Resource::from("/doc.ttl", true);
    match &r {
        Resource::RDFSource(p) => assert_eq!(p, "doc.ttl"),
        _ => panic!("expected a structured resource"),
    }
    assert_eq!(r.content_type(), Some("text/turtle"));
}

#[test]
fn classify_jsonld_is_structured() {
    let r = Resource::from("/data/graph.jsonld", true);
    match &r {
        Resource::RDFSource(p) => assert_eq!(p, "data/graph.jsonld"),
        _ => panic!("expected a structured resource"),
    }
    assert_eq!(r.content_type(), Some("application/ld+json"));
}

#[test]
fn classify_other_extension_is_opaque() {
    for path in ["/a.txt", "/readme", "/file.", "/x.TTL", "/x.ttls", "/archive.jsonld.gz"] {
        let r = Resource::from(path, true);
        assert!(matches!(r, Resource::NonRDF(_)), "{path} should be opaque");
        assert_eq!(r.content_type(), None);
    }
}

#[test]
fn classify_dot_in_directory_is_not_an_extension() {
    let r = Resource::from("/dir.ttl/file", true);
    match &r {
        Resource::NonRDF(p) => assert_eq!(p, "dir.ttl/file"),
        _ => panic!("expected an opaque resource"),
    }
    assert_eq!(r.content_type(), None);
}

#[test]
fn classify_leading_dot_segment_uses_its_extension() {
    let r = Resource::from("/.ttl", true);
    assert!(matches!(r, Resource::RDFSource(_)));
    assert_eq!(r.content_type(), Some("text/turtle"));
}

#[test]
fn target_path_strips_one_separator() {
    assert_eq!(target_path("/a.ttl"), "a.ttl");
    assert_eq!(target_path("a.ttl"), "a.ttl");
    assert_eq!(target_path("//a"), "/a");
    assert_eq!(target_path("/"), "");
    assert_eq!(target_path(""), "");
}

#[test]
fn body_of_absent_is_the_sentinel() {
    let r = Resource::from("/nowhere", false);
    let body = r.to_body(None).expect("the sentinel body carries no error");
    assert_eq!(body, b"NOT FOUND".to_vec());
    assert_eq!(body.len(), 9);
}

#[test]
fn body_round_trips_read_bytes() {
    let bytes: Vec<u8> = (0u8..=255).collect();
    let r = Resource::from("/blob.bin", true);
    assert_eq!(r.to_body(Some(Ok(bytes.clone()))), Ok(bytes));
    let empty: Vec<u8> = vec![];
    assert_eq!(r.to_body(Some(Ok(empty.clone()))), Ok(empty));
}

#[test]
fn body_passes_each_read_error_through() {
    let r = Resource::from("/doc.ttl", true);
    for kind in [IoErrorKind::NotFoundError, IoErrorKind::PermissionDenied, IoErrorKind::Other] {
        assert_eq!(r.to_body(Some(Err(kind))), Err(kind));
    }
}

#[test]
fn etag_of_absent_is_empty() {
    let r = Resource::from("/gone.ttl", false);
    assert_eq!(r.etag(None), "");
    assert_eq!(r.etag(Some(ts(123, 456))), "");
}

#[test]
fn etag_degrades_to_empty_without_metadata() {
    let r = Resource::from("/doc.ttl", true);
    assert_eq!(r.etag(None), "");
}

#[test]
fn etag_is_deterministic_for_a_fixed_timestamp() {
    let r = Resource::from("/doc.ttl", true);
    let first = r.etag(Some(ts(1_700_000_000, 123_456_789)));
    let second = r.etag(Some(ts(1_700_000_000, 123_456_789)));
    assert_eq!(first, second);
    assert!(!first.is_empty());
}

#[test]
fn etag_changes_when_the_timestamp_changes() {
    let r = Resource::from("/doc.ttl", true);
    let before = r.etag(Some(ts(1_700_000_000, 0)));
    let touched = r.etag(Some(ts(1_700_000_600, 0)));
    assert_ne!(before, touched);
    let nanos_only = r.etag(Some(ts(1_700_000_000, 1)));
    assert_ne!(before, nanos_only);
}

#[test]
fn etag_ignores_path_and_variant() {
    let structured = Resource::from("/doc.ttl", true);
    let opaque = Resource::from("/other/name.bin", true);
    let t = Some(ts(42, 7));
    assert_eq!(structured.etag(t), opaque.etag(t));
}

#[test]
fn etag_matches_a_reference_fnv1a_of_the_timestamp() {
    fn reference(secs: u64, nanos: u32) -> String {
        let mut bytes = Vec::new();
        bytes.extend_from_slice(&secs.to_le_bytes());
        bytes.extend_from_slice(&nanos.to_le_bytes());
        let mut h: u64 = 0xcbf29ce484222325;
        for b in bytes {
            h = (h ^ (b as u64)).wrapping_mul(0x100000001b3);
        }
        h.to_string()
    }
    let r = Resource::from("/doc.ttl", true);
    for (secs, nanos) in [(0u64, 0u32), (1, 0), (0, 1), (1_700_000_000, 987_654_321), (u64::MAX, 999_999_999)] {
        assert_eq!(r.etag(Some(ts(secs, nanos))), reference(secs, nanos));
    }
}

#[test]
fn scenario_existing_turtle_document() {
    let on_disk: Vec<u8> = b"0123456789".to_vec();
    assert_eq!(on_disk.len(), 10);
    let r = Resource::from("/doc.ttl", true);
    match &r {
        Resource::RDFSource(p) => assert_eq!(p, "doc.ttl"),
        _ => panic!("expected a structured resource"),
    }
    assert_eq!(r.content_type(), Some("text/turtle"));
    assert_eq!(r.to_body(Some(Ok(on_disk.clone()))), Ok(on_disk));
    let etag = r.etag(Some(ts(1_650_000_000, 500)));
    assert!(!etag.is_empty());
    assert!(etag.chars().all(|c| c.is_ascii_digit()));
}

#[test]
fn scenario_missing_json_document() {
    let r = Resource::from("/missing.json", false);
    assert!(matches!(r, Resource::NotFound));
    let body = r.to_body(None).expect("the sentinel body carries no error");
    assert_eq!(body, b"NOT FOUND".to_vec());
    assert_eq!(body.len(), 9);
    assert_eq!(r.content_type(), None);
    assert_eq!(r.etag(None), "");
}
