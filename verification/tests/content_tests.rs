use docln_fetch::content::{
    apply_resolutions, collect_image_srcs, render_chapter_doc, render_paragraphs,
    ChapterGenerator, Paragraph, Segment,
};
use docln_fetch::models::{NovelInfo, Volume};

fn text(s: &str) -> Segment {
    Segment::Text(s.to_string())
}

fn image(s: &str) -> Segment {
    Segment::Image(s.to_string())
}

fn para(segments: Vec<Segment>) -> Paragraph {
    Paragraph { segments }
}

const DOC_HEAD_A: &str = "<?xml version=\"1.0\" encoding=\"UTF-8\"?>\n<!DOCTYPE html PUBLIC \"-//W3C//DTD XHTML 1.1//EN\" \"http://www.w3.org/TR/xhtml11/DTD/xhtml11.dtd\">\n<html xmlns=\"http://www.w3.org/1999/xhtml\">\n<head>\n    <title>";
const DOC_HEAD_B: &str = "</title>\n    <meta http-equiv=\"Content-Type\" content=\"text/html; charset=UTF-8\"/>\n</head>\n<body>\n    <h1>";

#[test]
fn collects_image_sources_in_document_order() {
    let paras = vec![
        para(vec![text("<p>alpha</p>")]),
        para(vec![text("<p>"), image("https://h/a.jpg"), text("</p>")]),
        para(vec![image(""), image("https://h/b.png")]),
    ];
    let srcs = collect_image_srcs(&paras);
    assert_eq!(srcs, vec!["https://h/a.jpg".to_string(), "https://h/b.png".to_string()]);
}

#[test]
fn successful_downloads_are_renamed_and_numbered() {
    let paras = vec![
        para(vec![text("<p>"), image("https://h/a.jpg"), text("</p>")]),
        para(vec![image("https://h/b.png")]),
    ];
    let resolved = apply_resolutions(&paras, &vec![true, true], 0, 0);
    assert_eq!(
        resolved.illustration_paths,
        vec![
            "volume_001/chapter_001/001.jpg".to_string(),
            "volume_001/chapter_001/002.png".to_string(),
        ]
    );
    let body = render_paragraphs(&resolved.paragraphs);
    assert_eq!(
        body,
        "<p><img src=\"../../images/volume_001/chapter_001/001.jpg\"/></p>\n<img src=\"../../images/volume_001/chapter_001/002.png\"/>"
    );
}

#[test]
fn failed_download_keeps_remote_url_and_consumes_no_number() {
    let paras = vec![
        para(vec![image("https://h/a.jpg")]),
        para(vec![image("https://h/b.png")]),
    ];
    let resolved = apply_resolutions(&paras, &vec![false, true], 1, 2);
    // the failed first reference keeps its URL; the second gets number 001
    assert_eq!(
        resolved.illustration_paths,
        vec!["volume_002/chapter_003/001.png".to_string()]
    );
    let body = render_paragraphs(&resolved.paragraphs);
    assert_eq!(
        body,
        "<img src=\"https://h/a.jpg\"/>\n<img src=\"../../images/volume_002/chapter_003/001.png\"/>"
    );
}

#[test]
fn chapter_document_exact_rendering() {
    let paras = vec![para(vec![text("<p>a</p>")]), para(vec![text("<p>b</p>")])];
    let doc = render_chapter_doc("C1", &paras);
    let expected = format!(
        "{}C1{}C1</h1>\n    <div class=\"chapter-content\">\n<p>a</p>\n<p>b</p>    </div>\n</body>\n</html>",
        DOC_HEAD_A, DOC_HEAD_B
    );
    assert_eq!(doc, expected);
}

#[test]
fn flagged_chapter_without_images_renders_identically() {
    // the upstream hint said "has illustrations", but no reference exists:
    // running the rewrite must change nothing and persist nothing
    let paras = vec![
        para(vec![text("<p>only text</p>")]),
        para(vec![text("<p>more text</p>")]),
    ];
    let srcs = collect_image_srcs(&paras);
    assert_eq!(srcs.len(), 0);
    let resolved = apply_resolutions(&paras, &vec![], 0, 0);
    assert_eq!(resolved.illustration_paths.len(), 0);
    let with_rewrite = render_chapter_doc("T", &resolved.paragraphs);
    let without_rewrite = render_chapter_doc("T", &paras);
    assert_eq!(with_rewrite, without_rewrite);
}

#[test]
fn volume_cover_page_exact_rendering() {
    let volume = Volume {
        title: "V1".to_string(),
        volume_id: "#vol-1".to_string(),
        cover_image_path: Some("images/Vol_1.png".to_string()),
        chapters: vec![],
    };
    let g = ChapterGenerator::new();
    let doc = g.generate_volume_cover_chapter(&volume, 0);
    assert_eq!(doc.path, "text/volume_001/chapter_000.xhtml");
    let expected = format!(
        "{}V1{}V1</h1>\n    <div class=\"volume-cover\">\n\n        <img src=\"../../images/Vol_1.png\" alt=\"V1\" style=\"max-width: 100%; height: auto;\"/>\n    </div>\n</body>\n</html>",
        DOC_HEAD_A, DOC_HEAD_B
    );
    assert_eq!(doc.content, expected);
}

#[test]
fn cover_pages_only_for_volumes_with_covers() {
    let novel = NovelInfo {
        title: "N".to_string(),
        author: "A".to_string(),
        illustrator: None,
        summary: String::new(),
        cover_image_path: None,
        volumes: vec![
            Volume {
                title: "V1".to_string(),
                volume_id: "#v1".to_string(),
                cover_image_path: Some("images/V1.jpg".to_string()),
                chapters: vec![],
            },
            Volume {
                title: "V2".to_string(),
                volume_id: "#v2".to_string(),
                cover_image_path: None,
                chapters: vec![],
            },
            Volume {
                title: "V3".to_string(),
                volume_id: "#v3".to_string(),
                cover_image_path: Some("images/V3.png".to_string()),
                chapters: vec![],
            },
        ],
        tags: vec![],
        url: String::new(),
    };
    let g = ChapterGenerator::new();
    let docs = g.generate_all_volume_cover_chapters(&novel);
    assert_eq!(docs.len(), 2);
    assert_eq!(docs[0].path, "text/volume_001/chapter_000.xhtml");
    assert_eq!(docs[1].path, "text/volume_003/chapter_000.xhtml");
    assert!(docs[1].content.contains("../../images/V3.png"));
}

#[test]
fn empty_image_source_is_left_alone() {
    let paras = vec![para(vec![image(""), text("x")])];
    let srcs = collect_image_srcs(&paras);
    assert_eq!(srcs.len(), 0);
    let resolved = apply_resolutions(&paras, &vec![], 0, 0);
    assert_eq!(render_paragraphs(&resolved.paragraphs), "<img src=\"\"/>x");
    assert_eq!(resolved.illustration_paths.len(), 0);
}
