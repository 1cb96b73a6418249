use docln_fetch::assemble::{assemble, nav_counter_fits, EntryId, MediaType};
use docln_fetch::models::{Chapter, NovelInfo, Volume};

fn chapter(title: &str, xhtml_path: Option<&str>, illustrations: Vec<&str>) -> Chapter {
    Chapter {
        title: title.to_string(),
        url: String::new(),
        has_illustrations: !illustrations.is_empty(),
        xhtml_path: xhtml_path.map(|p| p.to_string()),
        illustration_paths: illustrations.iter().map(|p| p.to_string()).collect(),
    }
}

/// The scenario: volume 1 has a resolved cover and two chapters of which one
/// was fetched, volume 2 has no cover and one fetched chapter; the novel
/// cover resolved.
fn scenario_novel() -> NovelInfo {
    NovelInfo {
        title: "N".to_string(),
        author: "A".to_string(),
        illustrator: None,
        summary: String::new(),
        cover_image_path: Some("images/cover.jpg".to_string()),
        volumes: vec![
            Volume {
                title: "V1".to_string(),
                volume_id: "#v1".to_string(),
                cover_image_path: Some("images/V1.jpg".to_string()),
                chapters: vec![
                    chapter("c1", Some("text/volume_001/chapter_001.xhtml"), vec![]),
                    chapter("c2", None, vec![]),
                ],
            },
            Volume {
                title: "V2".to_string(),
                volume_id: "#v2".to_string(),
                cover_image_path: None,
                chapters: vec![chapter("c3", Some("text/volume_002/chapter_001.xhtml"), vec![])],
            },
        ],
        tags: vec![],
        url: String::new(),
    }
}

#[test]
fn scenario_manifest() {
    let novel = scenario_novel();
    assert!(nav_counter_fits(&novel.volumes));
    let model = assemble(&novel);

    // one novel-cover entry
    let cover_entries: Vec<_> = model
        .manifest
        .iter()
        .filter(|e| matches!(e.id, EntryId::CoverImage))
        .collect();
    assert_eq!(cover_entries.len(), 1);
    assert_eq!(cover_entries[0].href, "images/cover.jpg");
    assert_eq!(cover_entries[0].media_type, MediaType::ImageJpeg);

    // one volume-1-cover entry
    let vol_covers: Vec<_> = model
        .manifest
        .iter()
        .filter(|e| matches!(e.id, EntryId::VolumeCover(_)))
        .collect();
    assert_eq!(vol_covers.len(), 1);
    assert!(matches!(vol_covers[0].id, EntryId::VolumeCover(1)));
    assert_eq!(vol_covers[0].href, "images/V1.jpg");

    // two chapter-document entries, at the paths their renderer wrote
    let chapter_docs: Vec<_> = model
        .manifest
        .iter()
        .filter(|e| matches!(e.id, EntryId::Unit(_, u) if u >= 1))
        .collect();
    assert_eq!(chapter_docs.len(), 2);
    assert_eq!(chapter_docs[0].href, "text/volume_001/chapter_001.xhtml");
    assert_eq!(chapter_docs[1].href, "text/volume_002/chapter_001.xhtml");
    assert_eq!(chapter_docs[0].media_type, MediaType::Xhtml);

    // the skipped chapter leaves no manifest entry at all
    assert!(!model
        .manifest
        .iter()
        .any(|e| matches!(e.id, EntryId::Unit(1, 2))));
}

#[test]
fn scenario_spine() {
    let novel = scenario_novel();
    let model = assemble(&novel);
    // volume cover unit, then the surviving chapter of each volume
    assert_eq!(model.spine.len(), 3);
    assert!(matches!(model.spine[0], EntryId::Unit(1, 0)));
    assert!(matches!(model.spine[1], EntryId::Unit(1, 1)));
    assert!(matches!(model.spine[2], EntryId::Unit(2, 1)));
}

#[test]
fn scenario_navigation() {
    let novel = scenario_novel();
    let model = assemble(&novel);
    assert_eq!(model.nav.len(), 2);

    let first = &model.nav[0];
    assert_eq!(first.title, "V1");
    // the volume has a cover, so its node points at the volume-cover unit
    assert_eq!(first.target, "text/volume_001/chapter_000.xhtml");
    assert_eq!(first.play_order, 1);
    assert_eq!(first.children.len(), 1);
    assert_eq!(first.children[0].title, "c1");
    assert_eq!(first.children[0].target, "text/volume_001/chapter_001.xhtml");
    assert_eq!(first.children[0].play_order, 2);

    let second = &model.nav[1];
    assert_eq!(second.title, "V2");
    // no cover: the node points at the first surviving chapter
    assert_eq!(second.target, "text/volume_002/chapter_001.xhtml");
    assert_eq!(second.play_order, 3);
    assert_eq!(second.children.len(), 1);
    assert_eq!(second.children[0].play_order, 4);
}

#[test]
fn spine_ids_each_occur_once_in_manifest() {
    let novel = scenario_novel();
    let model = assemble(&novel);
    for id in &model.spine {
        let (v, u) = match id {
            EntryId::Unit(v, u) => (*v, *u),
            _ => panic!("spine holds only unit ids"),
        };
        let occurrences = model
            .manifest
            .iter()
            .filter(|e| matches!(e.id, EntryId::Unit(ev, eu) if ev == v && eu == u))
            .count();
        assert_eq!(occurrences, 1);
    }
}

#[test]
fn volume_without_surviving_chapters_is_absent_from_navigation() {
    let mut novel = scenario_novel();
    // volume with a cover but no fetched chapter: no navigation node
    novel.volumes.push(Volume {
        title: "V3".to_string(),
        volume_id: "#v3".to_string(),
        cover_image_path: Some("images/V3.png".to_string()),
        chapters: vec![chapter("c4", None, vec![])],
    });
    let model = assemble(&novel);
    assert_eq!(model.nav.len(), 2);
    // but its cover unit still enters the spine
    assert_eq!(model.spine.len(), 4);
    assert!(matches!(model.spine[3], EntryId::Unit(3, 0)));
}

#[test]
fn illustrations_enter_manifest_from_tracked_paths() {
    let mut novel = scenario_novel();
    novel.volumes[0].chapters[0].illustration_paths =
        vec!["volume_001/chapter_001/001.png".to_string(), "volume_001/chapter_001/002.jpg".to_string()];
    let model = assemble(&novel);
    let illus: Vec<_> = model
        .manifest
        .iter()
        .filter(|e| matches!(e.id, EntryId::Illustration(_, _, _)))
        .collect();
    assert_eq!(illus.len(), 2);
    assert_eq!(illus[0].href, "images/volume_001/chapter_001/001.png");
    assert_eq!(illus[0].media_type, MediaType::ImagePng);
    assert_eq!(illus[1].media_type, MediaType::ImageJpeg);
    match &illus[0].id {
        EntryId::Illustration(v, c, f) => {
            assert_eq!((*v, *c), (1, 1));
            assert_eq!(f, "001.png");
        }
        _ => panic!("filtered on illustration ids"),
    }
}

#[test]
fn play_orders_increase_by_one_across_nesting() {
    let mut novel = scenario_novel();
    novel.volumes[1].chapters.push(chapter("c5", Some("text/volume_002/chapter_002.xhtml"), vec![]));
    let model = assemble(&novel);
    let mut flat: Vec<usize> = Vec::new();
    for node in &model.nav {
        flat.push(node.play_order);
        for c in &node.children {
            flat.push(c.play_order);
        }
    }
    let expected: Vec<usize> = (1..=flat.len()).collect();
    assert_eq!(flat, expected);
}
