use asset_embed::{build_index, mime_decision, resolve_content_type, sniff, CapacityMode, FileEntry};

const PNG_BYTES: &[u8] = b"\x89PNG\r\n\x1a\ntrailing";
const JPEG_BYTES: &[u8] = b"\xff\xd8\xff\xe0rest";
const GIF_BYTES: &[u8] = b"GIF89a;";

#[test]
fn json_expectation_confirmed() {
    let valid_json = b"{\"name\": \"value\", \"n\": 3}";
    assert_eq!(
        resolve_content_type("a.json", valid_json),
        Some("text/json".to_owned())
    );
}

#[test]
fn mismatched_content_fails_closed() {
    let entries = vec![FileEntry {
        relative_path: "a.png".to_owned(),
        canonical_path: "/srv/a.png".to_owned(),
        bytes: JPEG_BYTES.to_vec(),
    }];
    let index = build_index(entries, CapacityMode::Dynamic).unwrap();
    let bytes = index.get_raw("a.png").unwrap();
    assert_eq!(bytes, JPEG_BYTES);
    assert_eq!(resolve_content_type("a.png", bytes), None);
}

#[test]
fn unknown_extension_falls_back_to_sniffing() {
    assert_eq!(
        resolve_content_type("a.xyz", PNG_BYTES),
        Some("image/png".to_owned())
    );
}

#[test]
fn known_extensions_confirmed_by_content() {
    assert_eq!(resolve_content_type("p.png", PNG_BYTES), Some("image/png".to_owned()));
    assert_eq!(resolve_content_type("j.jpg", JPEG_BYTES), Some("image/jpeg".to_owned()));
    assert_eq!(resolve_content_type("j.jpeg", JPEG_BYTES), Some("image/jpeg".to_owned()));
    assert_eq!(resolve_content_type("g.gif", GIF_BYTES), Some("image/gif".to_owned()));
    assert_eq!(
        resolve_content_type("page.html", b"<html></html>"),
        Some("text/html".to_owned())
    );
    assert_eq!(
        resolve_content_type("app.js", b"console.log(1);"),
        Some("application/javascript".to_owned())
    );
}

#[test]
fn missing_extension_falls_back_to_sniffing() {
    assert_eq!(
        resolve_content_type("README", b"plain words"),
        Some("application/javascript".to_owned())
    );
    assert_eq!(resolve_content_type("raw", b"\x00\x01\x02"), Some("application/octet-stream".to_owned()));
}

#[test]
fn sniffed_types_for_common_signatures() {
    assert_eq!(sniff(PNG_BYTES), "image/png");
    assert_eq!(sniff(JPEG_BYTES), "image/jpeg");
    assert_eq!(sniff(GIF_BYTES), "image/gif");
    assert_eq!(sniff(b"  \t\n{\"k\": 1}"), "text/json");
    assert_eq!(sniff(b"[1, 2]"), "text/json");
    assert_eq!(sniff(b"  <html>"), "text/html");
    assert_eq!(sniff(b"var x = 1;"), "application/javascript");
    assert_eq!(sniff(b""), "application/javascript");
    assert_eq!(sniff(b"\x00\xff\xfe"), "application/octet-stream");
}

#[test]
fn decision_carries_all_three_signals() {
    let d = mime_decision("a.png", JPEG_BYTES);
    assert_eq!(d.expected_type, Some("image/png".to_owned()));
    assert_eq!(d.sniffed_type, "image/jpeg");
    assert_eq!(d.resolved_type, None);

    let d = mime_decision("a.json", b"{}");
    assert_eq!(d.expected_type, Some("text/json".to_owned()));
    assert_eq!(d.sniffed_type, "text/json");
    assert_eq!(d.resolved_type, Some("text/json".to_owned()));

    let d = mime_decision("a.xyz", GIF_BYTES);
    assert_eq!(d.expected_type, None);
    assert_eq!(d.sniffed_type, "image/gif");
    assert_eq!(d.resolved_type, Some("image/gif".to_owned()));
}

#[test]
fn extension_is_case_sensitive_suffix_after_final_dot() {
    assert_eq!(
        resolve_content_type("archive.tar.json", b"{}"),
        Some("text/json".to_owned())
    );
    assert_eq!(
        resolve_content_type("a.PNG", PNG_BYTES),
        Some("image/png".to_owned())
    );
    assert_eq!(resolve_content_type("trailing.", b"var x;"), Some("application/javascript".to_owned()));
}
