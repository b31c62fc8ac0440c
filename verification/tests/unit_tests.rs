use image_vault::auth::{Authorization, AuthorizationError};
use image_vault::digits::parse_dec;
use image_vault::hosts::{classify_host, HostClass};
use image_vault::html::{accepts_html, canonical_url, delete_json, upload_json, CustomError};
use image_vault::mime::{extension_of, is_image_mimetype};
use image_vault::size::{parse_size, resolve_dimensions, DimensionError};
use image_vault::strutil::{
    split_after, split_before, str_contains, str_eq, str_eq_whole, str_starts_with,
};

#[test]
fn size_parameter_shapes() {
    assert_eq!(parse_size("512"), Some((512, 512)));
    assert_eq!(parse_size("800x600"), Some((800, 600)));
    assert_eq!(parse_size("abcx100"), None);
    assert_eq!(parse_size("100xabc"), None);
    assert_eq!(parse_size(""), None);
    assert_eq!(parse_size("x100"), None);
    assert_eq!(parse_size("100x"), None);
    assert_eq!(parse_size("1x2x3"), None);
    assert_eq!(parse_size("0"), Some((0, 0)));
    assert_eq!(parse_size("2147483647"), Some((2147483647, 2147483647)));
    assert_eq!(parse_size("2147483648"), None);
    assert_eq!(parse_size("99999999999999999999"), None);
}

#[test]
fn resolve_dimensions_prefers_the_parameter() {
    let bytes = vec![1u8, 2, 3];
    assert_eq!(
        resolve_dimensions(&Some("64x32".to_string()), &bytes),
        Ok((64, 32))
    );
    assert_eq!(
        resolve_dimensions(&Some("12ab".to_string()), &bytes),
        Err(DimensionError::InvalidSizeParameter)
    );
    // three junk bytes have no image header to probe
    assert_eq!(
        resolve_dimensions(&None, &bytes),
        Err(DimensionError::DimensionProbeFailed)
    );
}

#[test]
fn authorization_header_check() {
    assert_eq!(
        Authorization::from_header(None, "sekrit").err(),
        Some(AuthorizationError::Missing)
    );
    assert_eq!(
        Authorization::from_header(Some("wrong"), "sekrit").err(),
        Some(AuthorizationError::Invalid)
    );
    let ok = Authorization::from_header(Some("sekrit"), "sekrit");
    assert_eq!(ok.ok().map(|a| a.0), Some("sekrit".to_string()));
}

#[test]
fn host_classification() {
    assert_eq!(classify_host("cdn.klappstuhl.me"), HostClass::Image);
    assert_eq!(classify_host("cdn.localhost:8000"), HostClass::Image);
    assert_eq!(classify_host("www.klappstuhl.me"), HostClass::Web);
    assert_eq!(classify_host("klappstuhl.me"), HostClass::Web);
    assert_eq!(classify_host("localhost:8000"), HostClass::Web);
    assert_eq!(classify_host("example.com"), HostClass::Default);
}

#[test]
fn mimetype_validation_and_extension() {
    assert!(is_image_mimetype("image/png"));
    assert!(is_image_mimetype("image/svg+xml"));
    assert!(!is_image_mimetype("text/plain"));
    assert!(!is_image_mimetype("application/octet-stream"));
    assert!(!is_image_mimetype("image"));
    assert_eq!(extension_of("image/png"), "png");
    assert_eq!(extension_of("image/svg+xml"), "svg+xml");
    assert_eq!(extension_of("imagepng"), "");
}

#[test]
fn json_bodies() {
    assert_eq!(
        upload_json("abcdefghij", "https://cdn.klappstuhl.me/gallery/abcdefghij.png"),
        "{\"id\": \"abcdefghij\", \"url\": \"https://cdn.klappstuhl.me/gallery/abcdefghij.png\"}"
    );
    assert_eq!(delete_json("abcdefghij"), "{\"id\": \"abcdefghij\"}");
    let err = CustomError::new(404, "Not Found".to_string());
    assert_eq!(
        err.body_json(),
        "{\"error\":{\"code\":404,\"message\":\"Not Found\"}}"
    );
    let err = CustomError::new(500, "Failed to insert image into database.".to_string());
    assert_eq!(
        err.body_json(),
        "{\"error\":{\"code\":500,\"message\":\"Failed to insert image into database.\"}}"
    );
}

#[test]
fn canonical_url_shape() {
    assert_eq!(
        canonical_url("abcdefghij", "png"),
        "https://cdn.klappstuhl.me/gallery/abcdefghij.png"
    );
}

#[test]
fn accept_header_negotiation() {
    assert!(accepts_html("text/html,application/xhtml+xml"));
    assert!(accepts_html("application/json, text/html"));
    assert!(!accepts_html("application/json"));
    assert!(!accepts_html(""));
}

#[test]
fn string_helpers() {
    assert!(str_eq("abc", "abc"));
    assert!(!str_eq("abc", "abd"));
    assert!(!str_eq("abc", "abcd"));
    assert!(str_starts_with("image/png", "image/"));
    assert!(!str_starts_with("imag", "image/"));
    assert!(str_contains("text/html,foo", "text/html"));
    assert!(!str_contains("text/htm", "text/html"));
    assert_eq!(split_before("abc.def.png", '.'), "abc");
    assert_eq!(split_after("abc.def.png", '.'), "def.png");
    assert_eq!(split_before("abc", '.'), "abc");
    assert_eq!(split_after("abc", '.'), "");
}

#[test]
fn decimal_parsing_bounds() {
    assert_eq!(parse_dec("0"), Some(0));
    assert_eq!(parse_dec("007"), Some(7));
    assert_eq!(parse_dec("2147483647"), Some(2147483647));
    assert_eq!(parse_dec("2147483648"), None);
    assert_eq!(parse_dec(""), None);
    assert_eq!(parse_dec("-1"), None);
    assert_eq!(parse_dec("1 2"), None);
}

#[test]
fn whole_string_comparison() {
    assert!(str_eq_whole("sekrit", "sekrit"));
    assert!(!str_eq_whole("sekrit", "sekrif"));
    assert!(!str_eq_whole("Xekrit", "sekrit"));
    assert!(!str_eq_whole("sekrit", "sekrit "));
    assert!(str_eq_whole("", ""));
}

#[test]
fn error_bodies_escape_json_metacharacters() {
    let err = CustomError::new(
        404,
        "Image with name `a\"b\\c` could not be found.".to_string(),
    );
    assert_eq!(
        err.body_json(),
        "{\"error\":{\"code\":404,\"message\":\"Image with name `a\\\"b\\\\c` could not be found.\"}}"
    );
    let err = CustomError::new(400, "line\nbreak\ttab \u{1}ctl".to_string());
    assert_eq!(
        err.body_json(),
        "{\"error\":{\"code\":400,\"message\":\"line\\nbreak\\ttab \\u0001ctl\"}}"
    );
    assert_eq!(delete_json("a\"b"), "{\"id\": \"a\\\"b\"}");
    assert_eq!(
        upload_json("abc\\def", "url\"x"),
        "{\"id\": \"abc\\\\def\", \"url\": \"url\\\"x\"}"
    );
}
