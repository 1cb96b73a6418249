use std::io::Read;
use docln_fetch::archive::ArchiveFile;
use docln_fetch::opf::EpubGenerator;

fn file(path: &str, data: &str) -> ArchiveFile {
    ArchiveFile { path: path.to_string(), data: data.as_bytes().to_vec() }
}

#[test]
fn archive_name_is_derived_from_directory() {
    let generator = EpubGenerator::new();
    let out = generator.compress_epub("epub_42", &vec![]).unwrap();
    assert_eq!(out.filename, "docln_42.epub");
    let other = generator.compress_epub("plain", &vec![]).unwrap();
    assert_eq!(other.filename, "docln_plain.epub");
}

#[test]
fn declaration_member_is_first_stored_and_byte_exact() {
    let generator = EpubGenerator::new();
    let files = vec![
        file("META-INF/container.xml", "<container/>"),
        file("OEBPS/content.opf", "<package/>"),
        file("OEBPS/text/volume_001/chapter_001.xhtml", "<html/>"),
    ];
    let out = generator.compress_epub("epub_9", &files).unwrap();

    // round trip: re-extract the archive and inspect its members
    let cursor = std::io::Cursor::new(out.bytes);
    let mut archive = zip::ZipArchive::new(cursor).unwrap();
    assert_eq!(archive.len(), 4);

    {
        let mut first = archive.by_index(0).unwrap();
        assert_eq!(first.name(), "mimetype");
        assert_eq!(first.compression(), zip::CompressionMethod::Stored);
        let mut content = String::new();
        first.read_to_string(&mut content).unwrap();
        assert_eq!(content, "application/epub+zip");
    }

    {
        let mut second = archive.by_index(1).unwrap();
        assert_eq!(second.name(), "META-INF/container.xml");
        assert_eq!(second.compression(), zip::CompressionMethod::Deflated);
        let mut content = String::new();
        second.read_to_string(&mut content).unwrap();
        assert_eq!(content, "<container/>");
    }

    {
        let third = archive.by_index(2).unwrap();
        assert_eq!(third.name(), "OEBPS/content.opf");
    }
    {
        let fourth = archive.by_index(3).unwrap();
        assert_eq!(fourth.name(), "OEBPS/text/volume_001/chapter_001.xhtml");
    }
}

#[test]
fn members_keep_traversal_order_and_content() {
    let generator = EpubGenerator::new();
    let files = vec![file("b/two", "2"), file("a/one", "1")];
    let out = generator.compress_epub("epub_1", &files).unwrap();
    let mut archive = zip::ZipArchive::new(std::io::Cursor::new(out.bytes)).unwrap();
    // no sorting beyond "declaration first": the given order is kept
    assert_eq!(archive.by_index(1).unwrap().name(), "b/two");
    assert_eq!(archive.by_index(2).unwrap().name(), "a/one");
    let mut content = String::new();
    archive.by_index(2).unwrap().read_to_string(&mut content).unwrap();
    assert_eq!(content, "1");
}

#[test]
fn duplicate_member_names_fail_the_archive() {
    let generator = EpubGenerator::new();
    let files = vec![file("OEBPS/a", "1"), file("OEBPS/a", "2")];
    let r = generator.compress_epub("epub_2", &files);
    assert!(matches!(r, Err(docln_fetch::archive::ArchiveError::Write)));
}
