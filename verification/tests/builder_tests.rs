use docln_fetch::epub_build::{Epub, EpubBuildError, EpubBuilder};
use docln_fetch::models::{Chapter, NovelCategory, Volume};

fn one_volume() -> Vec<Volume> {
    vec![Volume {
        title: "V".to_string(),
        volume_id: "#v".to_string(),
        cover_image_path: Some("images/V.jpg".to_string()),
        chapters: vec![Chapter {
            title: "C".to_string(),
            url: "/c/1".to_string(),
            has_illustrations: false,
            xhtml_path: Some("text/volume_001/chapter_001.xhtml".to_string()),
            illustration_paths: vec![],
        }],
    }]
}

#[test]
fn build_without_directory_fails() {
    let r = Epub::builder()
        .id(3)
        .title("T".to_string())
        .author("A".to_string())
        .volumes(one_volume())
        .build();
    assert!(matches!(r, Err(EpubBuildError::MissingEpubDir)));
}

#[test]
fn build_produces_the_full_plan() {
    let plan = EpubBuilder::new()
        .id(3)
        .title("T".to_string())
        .author("A".to_string())
        .url("https://docln.net/sang-tac/3".to_string())
        .illustrator(Some("I".to_string()))
        .summary("S".to_string())
        .cover_image_path(Some("images/cover.jpg".to_string()))
        .volumes(one_volume())
        .tags(vec!["t".to_string()])
        .epub_dir("epub_3".to_string())
        .build()
        .unwrap();

    assert_eq!(plan.epub_dir, "epub_3");
    assert_eq!(plan.epub_filename, "docln_3.epub");
    assert_eq!(plan.epub.id, 3);
    assert_eq!(plan.epub.title, "T");
    assert_eq!(plan.epub.volumes.len(), 1);

    assert_eq!(plan.docs.mimetype, "application/epub+zip");
    assert!(plan.docs.container_xml.contains("OEBPS/content.opf"));
    assert!(plan.docs.content_opf.contains("<dc:identifier id=\"BookId\">docln:3</dc:identifier>"));
    assert!(plan.docs.content_opf.contains("<dc:title>T</dc:title>"));
    assert!(plan.docs.toc_ncx.contains("<text>V</text>"));

    // volume 1 has a cover, so one synthetic cover page exists
    assert_eq!(plan.cover_pages.len(), 1);
    assert_eq!(plan.cover_pages[0].path, "text/volume_001/chapter_000.xhtml");
    assert!(plan.cover_pages[0].content.contains("../../images/V.jpg"));
}

#[test]
fn category_url_paths() {
    assert_eq!(NovelCategory::SangTac.to_url_path(), "sang-tac");
    assert_eq!(NovelCategory::AiDich.to_url_path(), "ai-dich");
}
