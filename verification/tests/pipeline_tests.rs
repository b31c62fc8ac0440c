use base64::Engine as _;
use image_vault::auth::{Authorization, AuthorizationError};
use image_vault::pipeline::{delete, ingest, ingest_sniffed, retrieve, IngestError, RetrievalOutcome};
use image_vault::store::ImageStore;

fn png_bytes(w: u32, h: u32) -> Vec<u8> {
    let mut v = vec![0x89u8, 0x50, 0x4E, 0x47, 0x0D, 0x0A, 0x1A, 0x0A];
    v.extend_from_slice(&[0, 0, 0, 13]);
    v.extend_from_slice(b"IHDR");
    v.extend_from_slice(&w.to_be_bytes());
    v.extend_from_slice(&h.to_be_bytes());
    v.extend_from_slice(&[8, 6, 0, 0, 0]);
    // CRC; neither the sniffer nor the header probe checks it
    v.extend_from_slice(&[0, 0, 0, 0]);
    v.extend_from_slice(&[0, 0, 0, 0]);
    v.extend_from_slice(b"IEND");
    v.extend_from_slice(&[0xAE, 0x42, 0x60, 0x82]);
    v
}

#[test]
fn ingest_then_retrieve_returns_same_bytes() {
    let mut store = ImageStore::new();
    let payload = png_bytes(100, 50);
    let receipt = ingest(&mut store, payload.clone()).expect("a valid PNG must ingest");
    assert_eq!(receipt.id.len(), 10);
    assert!(receipt.url.ends_with(".png"));
    assert!(receipt.url.starts_with("https://cdn.klappstuhl.me/gallery/"));
    let canonical = format!("{}.png", receipt.id);
    match retrieve(&store, &canonical, None) {
        RetrievalOutcome::Found(resp) => {
            assert_eq!(resp.0, payload);
            assert_eq!(resp.2, "image/png");
        }
        other => panic!("expected the image, got {:?}", other),
    }
}

#[test]
fn ingest_non_image_fails_and_persists_nothing() {
    let mut store = ImageStore::new();
    let payload = b"just some plain text, certainly not pixels".to_vec();
    match ingest(&mut store, payload) {
        Err(IngestError::NotAnImage) => {}
        other => panic!("expected NotAnImage, got {:?}", other.map(|r| r.id)),
    }
    assert_eq!(store.len(), 0);
}

#[test]
fn ingest_empty_fails_and_persists_nothing() {
    let mut store = ImageStore::new();
    match ingest(&mut store, Vec::new()) {
        Err(IngestError::EmptyUpload) => {}
        other => panic!("expected EmptyUpload, got {:?}", other.map(|r| r.id)),
    }
    assert_eq!(store.len(), 0);
}

#[test]
fn ingest_sniffed_duplicate_id_is_storage_failure() {
    let mut store = ImageStore::new();
    let payload = png_bytes(4, 4);
    let first = ingest_sniffed(
        &mut store,
        payload.clone(),
        "image/png".to_string(),
        "abcdefghij".to_string(),
    );
    assert!(first.is_ok());
    let second = ingest_sniffed(
        &mut store,
        payload,
        "image/png".to_string(),
        "abcdefghij".to_string(),
    );
    match second {
        Err(IngestError::StorageFailure) => {}
        other => panic!("expected StorageFailure, got {:?}", other.map(|r| r.id)),
    }
    assert_eq!(store.len(), 1);
}

#[test]
fn wrong_or_missing_extension_redirects_to_canonical() {
    let mut store = ImageStore::new();
    let payload = png_bytes(8, 8);
    let receipt = ingest_sniffed(
        &mut store,
        payload,
        "image/png".to_string(),
        "abcdefghij".to_string(),
    )
    .expect("insert must succeed");
    assert_eq!(receipt.url, "https://cdn.klappstuhl.me/gallery/abcdefghij.png");
    match retrieve(&store, "abcdefghij", None) {
        RetrievalOutcome::RedirectTo(p) => assert_eq!(p, "/gallery/abcdefghij.png"),
        other => panic!("expected a redirect, got {:?}", other),
    }
    match retrieve(&store, "abcdefghij.jpg", None) {
        RetrievalOutcome::RedirectTo(p) => assert_eq!(p, "/gallery/abcdefghij.png"),
        other => panic!("expected a redirect, got {:?}", other),
    }
    match retrieve(&store, "abcdefghij.png", None) {
        RetrievalOutcome::Found(resp) => assert_eq!(resp.2, "image/png"),
        other => panic!("expected the image, got {:?}", other),
    }
}

#[test]
fn unknown_key_misses_regardless_of_suffix() {
    let store = ImageStore::new();
    for name in ["nonexistent12", "nonexistent12.png", "nonexistent12.jpg"] {
        match retrieve(&store, name, None) {
            RetrievalOutcome::NotFound(m) => {
                assert_eq!(m, format!("Image with name `{}` could not be found.", name));
            }
            other => panic!("expected a miss, got {:?}", other),
        }
    }
}

#[test]
fn delete_then_retrieve_misses() {
    let mut store = ImageStore::new();
    let payload = png_bytes(8, 8);
    ingest_sniffed(
        &mut store,
        payload,
        "image/png".to_string(),
        "abcdefghij".to_string(),
    )
    .expect("insert must succeed");
    let deleted = delete(&mut store, "abcdefghij");
    assert_eq!(deleted, "abcdefghij");
    assert_eq!(store.len(), 0);
    match retrieve(&store, "abcdefghij.png", None) {
        RetrievalOutcome::NotFound(_) => {}
        other => panic!("expected a miss, got {:?}", other),
    }
}

#[test]
fn delete_strips_extension_and_is_idempotent() {
    let mut store = ImageStore::new();
    ingest_sniffed(
        &mut store,
        png_bytes(2, 2),
        "image/png".to_string(),
        "abcdefghij".to_string(),
    )
    .expect("insert must succeed");
    assert_eq!(delete(&mut store, "abcdefghij.png"), "abcdefghij");
    assert_eq!(store.len(), 0);
    // deleting a missing id is not distinguished from success
    assert_eq!(delete(&mut store, "abcdefghij"), "abcdefghij");
    assert_eq!(store.len(), 0);
}

#[test]
fn many_ingests_never_collide() {
    let mut store = ImageStore::new();
    let payload = png_bytes(3, 3);
    let mut ids: Vec<String> = Vec::new();
    for _ in 0..100 {
        let receipt = ingest(&mut store, payload.clone()).expect("ingest must succeed");
        ids.push(receipt.id);
    }
    assert_eq!(store.len(), 100);
    ids.sort();
    ids.dedup();
    assert_eq!(ids.len(), 100);
}

#[test]
fn size_parameter_overrides_intrinsic_dimensions() {
    let mut store = ImageStore::new();
    // a 100 x 50 source image, rendered in a 200 x 200 box
    let payload = png_bytes(100, 50);
    let receipt = ingest(&mut store, payload.clone()).expect("ingest must succeed");
    let canonical = format!("{}.png", receipt.id);
    match retrieve(&store, &canonical, Some("200".to_string())) {
        RetrievalOutcome::Found(resp) => {
            assert!(resp.1.contains("width=\"200\""));
            assert!(resp.1.contains("height=\"200\""));
        }
        other => panic!("expected the image, got {:?}", other),
    }
    // without the parameter the intrinsic header dimensions are used
    match retrieve(&store, &canonical, None) {
        RetrievalOutcome::Found(resp) => {
            assert!(resp.1.contains("width=\"100\""));
            assert!(resp.1.contains("height=\"50\""));
        }
        other => panic!("expected the image, got {:?}", other),
    }
}

#[test]
fn malformed_size_parameter_is_a_retrieval_failure() {
    let mut store = ImageStore::new();
    let receipt = ingest(&mut store, png_bytes(10, 10)).expect("ingest must succeed");
    let canonical = format!("{}.png", receipt.id);
    match retrieve(&store, &canonical, Some("abcx100".to_string())) {
        RetrievalOutcome::NotFound(m) => {
            assert_eq!(
                m,
                format!("Failed to get image dimensions of `{}`.", canonical)
            );
        }
        other => panic!("expected a failure, got {:?}", other),
    }
}

#[test]
fn unprobeable_bytes_without_size_parameter_fail() {
    let mut store = ImageStore::new();
    // a payload the sniffer may accept but the header probe cannot size
    ingest_sniffed(
        &mut store,
        vec![0xFFu8, 0x00, 0x01, 0x02],
        "image/png".to_string(),
        "abcdefghij".to_string(),
    )
    .expect("insert must succeed");
    match retrieve(&store, "abcdefghij.png", None) {
        RetrievalOutcome::NotFound(m) => {
            assert!(m.starts_with("Failed to get image dimensions of"));
        }
        other => panic!("expected a failure, got {:?}", other),
    }
}

#[test]
fn html_wrapper_embeds_base64_data_uri() {
    let mut store = ImageStore::new();
    let payload = png_bytes(5, 7);
    let receipt = ingest(&mut store, payload.clone()).expect("ingest must succeed");
    let canonical = format!("{}.png", receipt.id);
    match retrieve(&store, &canonical, None) {
        RetrievalOutcome::Found(resp) => {
            let encoded = base64::engine::general_purpose::STANDARD.encode(&payload);
            assert!(resp.1.contains(&format!("data:image/png;base64,{}", encoded)));
            assert!(resp.1.starts_with("<html>"));
            assert!(resp.1.ends_with("</html>"));
        }
        other => panic!("expected the image, got {:?}", other),
    }
}

#[test]
fn intrinsic_probe_matches_imagesize() {
    let payload = png_bytes(123, 45);
    let probed = imagesize::blob_size(&payload).expect("the header must parse");
    assert_eq!((probed.width, probed.height), (123, 45));
    let mut store = ImageStore::new();
    ingest_sniffed(
        &mut store,
        payload,
        "image/png".to_string(),
        "abcdefghij".to_string(),
    )
    .expect("insert must succeed");
    match retrieve(&store, "abcdefghij.png", None) {
        RetrievalOutcome::Found(resp) => {
            assert!(resp.1.contains("width=\"123\""));
            assert!(resp.1.contains("height=\"45\""));
        }
        other => panic!("expected the image, got {:?}", other),
    }
}

#[test]
fn upload_scenario_with_authorization() {
    // no Authorization header: the 401 class, nothing ingested
    assert_eq!(
        Authorization::from_header(None, "sekrit").err(),
        Some(AuthorizationError::Missing)
    );

    // correct key: the upload goes through
    assert!(Authorization::from_header(Some("sekrit"), "sekrit").is_ok());
    let mut store = ImageStore::new();
    let payload = png_bytes(100, 50);
    let receipt = ingest(&mut store, payload).expect("ingest must succeed");
    assert_eq!(receipt.id.len(), 10);
    assert!(receipt.id.chars().all(|c| c.is_ascii_alphabetic()));
    assert!(receipt.url.ends_with(".png"));

    // a size parameter names a 200 x 200 box, whatever the source's aspect
    let canonical = format!("{}.png", receipt.id);
    match retrieve(&store, &canonical, Some("200".to_string())) {
        RetrievalOutcome::Found(resp) => {
            assert!(resp.1.contains("width=\"200\""));
            assert!(resp.1.contains("height=\"200\""));
        }
        other => panic!("expected the image, got {:?}", other),
    }
}
