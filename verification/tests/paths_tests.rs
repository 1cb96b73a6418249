use docln_fetch::paths::{
    ext_of_url, full_chapter_url, illustration_doc_path, illustration_rel_path,
    is_placeholder_cover, novel_cover_rel_path, sanitize_title, unit_rel_path,
    volume_cover_rel_path,
};
use docln_fetch::paths::epub_filename;
use docln_fetch::textfmt::{pad3_string, str_contains, str_ends_with, str_starts_with, u32_string, usize_string};

#[test]
fn decimal_rendering() {
    assert_eq!(u32_string(0), "0");
    assert_eq!(u32_string(205), "205");
    assert_eq!(u32_string(4294967295), "4294967295");
    assert_eq!(usize_string(99), "99");
}

#[test]
fn zero_padding_width_three() {
    assert_eq!(pad3_string(0), "000");
    assert_eq!(pad3_string(5), "005");
    assert_eq!(pad3_string(57), "057");
    assert_eq!(pad3_string(123), "123");
    assert_eq!(pad3_string(1234), "1234");
}

#[test]
fn substring_predicates() {
    assert!(str_contains("https://x/nocover.png", "nocover"));
    assert!(!str_contains("https://x/cover.png", "nocover"));
    assert!(str_contains("abc", ""));
    assert!(!str_contains("ab", "abc"));
    assert!(str_ends_with("a.png", ".png"));
    assert!(!str_ends_with("a.jpg", ".png"));
    assert!(str_starts_with("/chapter/1", "/"));
    assert!(!str_starts_with("https://a", "/"));
}

#[test]
fn extension_from_url_suffix() {
    assert_eq!(ext_of_url("https://img.host/a/b/pic.png"), "png");
    assert_eq!(ext_of_url("https://img.host/a/b/pic.jpeg"), "jpeg");
    // no dot in the last path segment: the default applies
    assert_eq!(ext_of_url("https://img.host/a/plain"), "jpg");
    // dot only at the segment start or end: the default applies
    assert_eq!(ext_of_url("https://img.host/a/.hidden"), "jpg");
    assert_eq!(ext_of_url("https://img.host/a/name."), "jpg");
}

#[test]
fn novel_cover_naming() {
    assert_eq!(
        novel_cover_rel_path("https://img.host/c/cover_art.png"),
        Some("images/cover.png".to_string())
    );
    assert_eq!(
        novel_cover_rel_path("https://img.host/c/cover_art"),
        Some("images/cover.jpg".to_string())
    );
    assert_eq!(novel_cover_rel_path("https://img.host/nocover.png"), None);
    assert!(is_placeholder_cover("https://img.host/img/nocover-default.jpg"));
}

#[test]
fn volume_cover_naming_sanitizes_title() {
    assert_eq!(sanitize_title("Tap 1: Khoi dau"), "Tap_1__Khoi_dau");
    // letters outside ASCII are alphanumeric and survive
    assert_eq!(sanitize_title("T\u{1ead}p 1"), "T\u{1ead}p_1");
    assert_eq!(sanitize_title("a-b/c"), "a_b_c");
    assert_eq!(
        volume_cover_rel_path("https://img.host/v/one.png", "Vol 1"),
        Some("images/Vol_1.png".to_string())
    );
    assert_eq!(volume_cover_rel_path("https://img.host/nocover.gif", "Vol 1"), None);
}

#[test]
fn unit_paths_are_zero_padded_ordinals() {
    assert_eq!(unit_rel_path(0, 0), "text/volume_001/chapter_000.xhtml");
    assert_eq!(unit_rel_path(0, 1), "text/volume_001/chapter_001.xhtml");
    assert_eq!(unit_rel_path(11, 7), "text/volume_012/chapter_007.xhtml");
}

#[test]
fn illustration_paths() {
    assert_eq!(
        illustration_rel_path(0, 1, 3, "https://h/x/i.jpeg"),
        "volume_001/chapter_002/003.jpeg"
    );
    assert_eq!(
        illustration_doc_path(0, 1, 3, "https://h/x/i.jpeg"),
        "../../images/volume_001/chapter_002/003.jpeg"
    );
}

#[test]
fn illustration_path_ignores_url_besides_extension() {
    // same counter state and extension, entirely different URLs
    let a = illustration_rel_path(2, 3, 1, "https://host-one/alpha/first.png");
    let b = illustration_rel_path(2, 3, 1, "https://other.example/beta/second.png");
    assert_eq!(a, b);
    assert_eq!(a, "volume_003/chapter_004/001.png");
}

#[test]
fn archive_name_from_directory() {
    assert_eq!(epub_filename("epub_123"), "docln_123.epub");
    assert_eq!(epub_filename("workdir"), "docln_workdir.epub");
    assert_eq!(epub_filename("epub_"), "docln_.epub");
}

#[test]
fn chapter_url_joining() {
    assert_eq!(
        full_chapter_url("https://docln.net", "/truyen/1/chapter-2"),
        "https://docln.net/truyen/1/chapter-2"
    );
    assert_eq!(
        full_chapter_url("https://docln.net", "https://other.net/c/9"),
        "https://other.net/c/9"
    );
}
