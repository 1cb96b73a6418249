use docln_fetch::assemble::assemble;
use docln_fetch::models::{Chapter, NovelInfo, Volume};
use docln_fetch::opf::{container_xml, mimetype_content, render_content_opf, render_toc_ncx, EpubGenerator};

fn minimal_novel() -> NovelInfo {
    NovelInfo {
        title: "T".to_string(),
        author: "A".to_string(),
        illustrator: None,
        summary: String::new(),
        cover_image_path: None,
        volumes: vec![Volume {
            title: "V".to_string(),
            volume_id: "#v".to_string(),
            cover_image_path: None,
            chapters: vec![Chapter {
                title: "C".to_string(),
                url: String::new(),
                has_illustrations: false,
                xhtml_path: Some("text/volume_001/chapter_001.xhtml".to_string()),
                illustration_paths: vec![],
            }],
        }],
        tags: vec![],
        url: String::new(),
    }
}

#[test]
fn fixed_files() {
    assert_eq!(mimetype_content(), "application/epub+zip");
    assert_eq!(
        container_xml(),
        "<?xml version=\"1.0\" encoding=\"UTF-8\"?>\n<container version=\"1.0\" xmlns=\"urn:oasis:names:tc:opendocument:xmlns:container\">\n    <rootfiles>\n        <rootfile full-path=\"OEBPS/content.opf\" media-type=\"application/oebps-package+xml\"/>\n    </rootfiles>\n</container>"
    );
}

#[test]
fn package_manifest_document_exact() {
    let novel = minimal_novel();
    let model = assemble(&novel);
    let opf = render_content_opf(&novel, 7, "2024-01-01", &model);
    let expected = vec![
        "<?xml version=\"1.0\" encoding=\"UTF-8\"?>",
        "<package version=\"2.0\" xmlns=\"http://www.idpf.org/2007/opf\" unique-identifier=\"BookId\">",
        "    <metadata xmlns:dc=\"http://purl.org/dc/elements/1.1/\" xmlns:opf=\"http://www.idpf.org/2007/opf\">",
        "        <dc:identifier id=\"BookId\">docln:7</dc:identifier>",
        "        <dc:title>T</dc:title>",
        "        <dc:language>vi</dc:language>",
        "        <dc:creator opf:role=\"aut\">A</dc:creator>",
        "        <dc:publisher>docln-fetch</dc:publisher>",
        "        <dc:date>2024-01-01</dc:date>",
        "        <meta name=\"generator\" content=\"docln-fetch\"/>",
        "    </metadata>",
        "    <manifest>",
        "        <item id=\"ncx\" href=\"toc.ncx\" media-type=\"application/x-dtbncx+xml\"/>",
        "        <item id=\"chapter1_1\" href=\"text/volume_001/chapter_001.xhtml\" media-type=\"application/xhtml+xml\"/>",
        "    </manifest>",
        "    <spine toc=\"ncx\">",
        "        <itemref idref=\"chapter1_1\"/>",
        "    </spine>",
        "    <guide>",
        "        <reference type=\"cover\" title=\"Cover\" href=\"images/cover.jpg\"/>",
        "    </guide>",
        "</package>",
    ]
    .join("\n");
    assert_eq!(opf, expected);
}

#[test]
fn navigation_document_exact() {
    let novel = minimal_novel();
    let model = assemble(&novel);
    let ncx = render_toc_ncx(&novel, 7, &model);
    let expected = vec![
        "<?xml version=\"1.0\" encoding=\"UTF-8\"?>",
        "<ncx version=\"2005-1\" xmlns=\"http://www.daisy.org/z3986/2005/ncx/\">",
        "    <head>",
        "        <meta name=\"dtb:uid\" content=\"docln:7\"/>",
        "        <meta name=\"dtb:depth\" content=\"1\"/>",
        "        <meta name=\"dtb:totalPageCount\" content=\"0\"/>",
        "        <meta name=\"dtb:maxPageNumber\" content=\"0\"/>",
        "    </head>",
        "    <docTitle>",
        "        <text>T</text>",
        "    </docTitle>",
        "    <navMap>",
        "        <navPoint id=\"navPoint1\" playOrder=\"1\">",
        "            <navLabel>",
        "                <text>V</text>",
        "            </navLabel>",
        "            <content src=\"text/volume_001/chapter_001.xhtml\"/>",
        "            <navPoint id=\"navPoint2\" playOrder=\"2\">",
        "                <navLabel>",
        "                    <text>C</text>",
        "                </navLabel>",
        "                <content src=\"text/volume_001/chapter_001.xhtml\"/>",
        "            </navPoint>",
        "        </navPoint>",
        "    </navMap>",
        "</ncx>",
    ]
    .join("\n");
    assert_eq!(ncx, expected);
}

#[test]
fn optional_metadata_appears_only_when_present() {
    let mut novel = minimal_novel();
    novel.illustrator = Some("I".to_string());
    novel.summary = "S".to_string();
    novel.tags = vec!["t1".to_string(), "t2".to_string()];
    novel.cover_image_path = Some("images/cover.png".to_string());
    let model = assemble(&novel);
    let opf = render_content_opf(&novel, 9, "2024-02-02", &model);
    assert!(opf.contains("<dc:contributor opf:role=\"ill\">I</dc:contributor>"));
    assert!(opf.contains("<dc:subject>t1</dc:subject>"));
    assert!(opf.contains("<dc:subject>t2</dc:subject>"));
    assert!(opf.contains("<dc:description>S</dc:description>"));
    assert!(opf.contains("<item id=\"cover-image\" href=\"images/cover.png\" media-type=\"image/png\"/>"));
    assert!(opf.contains("<reference type=\"cover\" title=\"Cover\" href=\"images/cover.png\"/>"));

    let plain = render_content_opf(&minimal_novel(), 9, "2024-02-02", &assemble(&minimal_novel()));
    assert!(!plain.contains("dc:contributor"));
    assert!(!plain.contains("dc:subject"));
    assert!(!plain.contains("dc:description"));
}

#[test]
fn dated_documents_carry_the_given_date() {
    let novel = minimal_novel();
    let generator = EpubGenerator::new();
    let docs = generator.generate_epub_metadata_dated(&novel, 7, "1999-12-31");
    assert_eq!(docs.mimetype, "application/epub+zip");
    assert!(docs.content_opf.contains("<dc:date>1999-12-31</dc:date>"));
    assert!(docs.toc_ncx.contains("docln:7"));
}
