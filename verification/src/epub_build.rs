//! Builder-style entry point: collects a novel's metadata and volumes and
//! produces the complete in-memory package plan — the aggregate metadata
//! documents, the synthetic volume-cover pages and the archive's file name.
//! Writing the plan to disk and folding the tree into the archive are the
//! caller's work.

use vstd::prelude::*;
use crate::models::{Volume, NovelInfo};
use crate::assemble::spec_nav_counter;
use crate::content::{ChapterGenerator, VolumeCoverDoc, spec_cover_docs};
use crate::opf::{EpubGenerator, EpubDocs, spec_docs_for};
use crate::paths::spec_epub_filename;

verus! {

/// A fully described e-book: the novel's identity and display metadata
/// plus its volumes.
#[derive(Debug)]
pub struct Epub {
    pub id: u32,
    pub title: String,
    pub author: String,
    pub illustrator: Option<String>,
    pub summary: String,
    pub cover_image_path: Option<String>,
    pub volumes: Vec<Volume>,
    pub tags: Vec<String>,
    pub url: String,
}

impl Epub {
    /// A fresh builder with every field empty.
    pub fn builder() -> (b: EpubBuilder)
        ensures
            b.id == 0,
            b.title@ == Seq::<char>::empty(),
            b.author@ == Seq::<char>::empty(),
            b.illustrator is None,
            b.summary@ == Seq::<char>::empty(),
            b.cover_image_path is None,
            b.volumes@ == Seq::<Volume>::empty(),
            b.tags@ == Seq::<String>::empty(),
            b.url@ == Seq::<char>::empty(),
            b.epub_dir is None,
    {
        EpubBuilder::new()
    }
}

/// Step-by-step collection of an e-book's fields.
#[derive(Debug)]
pub struct EpubBuilder {
    pub id: u32,
    pub title: String,
    pub author: String,
    pub illustrator: Option<String>,
    pub summary: String,
    pub cover_image_path: Option<String>,
    pub volumes: Vec<Volume>,
    pub tags: Vec<String>,
    pub url: String,
    pub epub_dir: Option<String>,
}

/// The novel a builder's fields describe.
pub open spec fn spec_novel_of(b: EpubBuilder) -> NovelInfo {
    NovelInfo {
        title: b.title,
        author: b.author,
        illustrator: b.illustrator,
        summary: b.summary,
        cover_image_path: b.cover_image_path,
        volumes: b.volumes,
        tags: b.tags,
        url: b.url,
    }
}

/// Some generation date stamps these documents for this novel.
pub open spec fn has_docs_for(novel: NovelInfo, novel_id: u32, docs: EpubDocs) -> bool {
    exists|date: Seq<char>| #[trigger] spec_docs_for(novel, novel_id, date, docs)
}

/// Failure of `EpubBuilder::build`.
#[derive(Debug, PartialEq, Eq, Structural, Clone, Copy)]
pub enum EpubBuildError {
    /// No working directory was named.
    MissingEpubDir,
}

/// Everything a package writer needs to lay the package down on disk: the
/// described e-book, its working directory, the aggregate metadata
/// documents, the synthetic volume-cover pages, and the archive's name.
#[derive(Debug)]
pub struct EpubPlan {
    pub epub: Epub,
    pub epub_dir: String,
    pub docs: EpubDocs,
    pub cover_pages: Vec<VolumeCoverDoc>,
    pub epub_filename: String,
}

impl EpubBuilder {
    /// A builder with every field empty.
    pub fn new() -> (b: Self)
        ensures
            b.id == 0,
            b.title@ == Seq::<char>::empty(),
            b.author@ == Seq::<char>::empty(),
            b.illustrator is None,
            b.summary@ == Seq::<char>::empty(),
            b.cover_image_path is None,
            b.volumes@ == Seq::<Volume>::empty(),
            b.tags@ == Seq::<String>::empty(),
            b.url@ == Seq::<char>::empty(),
            b.epub_dir is None,
    {
        Self {
            id: 0,
            title: String::new(),
            author: String::new(),
            illustrator: None,
            summary: String::new(),
            cover_image_path: None,
            volumes: Vec::new(),
            tags: Vec::new(),
            url: String::new(),
            epub_dir: None,
        }
    }

    /// Sets the novel's numeric id.
    pub fn id(self, id: u32) -> (r: Self)
        ensures
            r == (Self { id, ..self }),
    {
        Self { id, ..self }
    }

    /// Sets the novel's title.
    pub fn title(self, title: String) -> (r: Self)
        ensures
            r == (Self { title, ..self }),
    {
        Self { title, ..self }
    }

    /// Sets the novel's author.
    pub fn author(self, author: String) -> (r: Self)
        ensures
            r == (Self { author, ..self }),
    {
        Self { author, ..self }
    }

    /// Sets the novel's canonical source URL.
    pub fn url(self, url: String) -> (r: Self)
        ensures
            r == (Self { url, ..self }),
    {
        Self { url, ..self }
    }

    /// Sets the novel's illustrator, if known.
    pub fn illustrator(self, illustrator: Option<String>) -> (r: Self)
        ensures
            r == (Self { illustrator, ..self }),
    {
        Self { illustrator, ..self }
    }

    /// Sets the novel's summary.
    pub fn summary(self, summary: String) -> (r: Self)
        ensures
            r == (Self { summary, ..self }),
    {
        Self { summary, ..self }
    }

    /// Sets the resolved cover image path, if one was downloaded.
    pub fn cover_image_path(self, path: Option<String>) -> (r: Self)
        ensures
            r == (Self { cover_image_path: path, ..self }),
    {
        Self { cover_image_path: path, ..self }
    }

    /// Sets the ordered volumes.
    pub fn volumes(self, volumes: Vec<Volume>) -> (r: Self)
        ensures
            r == (Self { volumes, ..self }),
    {
        Self { volumes, ..self }
    }

    /// Sets the tag list.
    pub fn tags(self, tags: Vec<String>) -> (r: Self)
        ensures
            r == (Self { tags, ..self }),
    {
        Self { tags, ..self }
    }

    /// Names the package working directory.
    pub fn epub_dir(self, epub_dir: String) -> (r: Self)
        ensures
            r == (Self { epub_dir: Some(epub_dir), ..self }),
    {
        Self { epub_dir: Some(epub_dir), ..self }
    }

    /// Produces the package plan: the aggregate documents (dated with the
    /// local clock), the volume-cover pages and the archive name. Fails
    /// exactly when no working directory was named.
    pub fn build(self) -> (r: Result<EpubPlan, EpubBuildError>)
        requires
            spec_nav_counter(self.volumes@) <= usize::MAX,
        ensures
            r is Ok <==> self.epub_dir is Some,
            self.epub_dir is None ==> r == Err::<EpubPlan, EpubBuildError>(
                EpubBuildError::MissingEpubDir,
            ),
            r matches Ok(p) ==> {
                &&& p.epub.id == self.id
                &&& p.epub.title == self.title
                &&& p.epub.author == self.author
                &&& p.epub.illustrator == self.illustrator
                &&& p.epub.summary == self.summary
                &&& p.epub.cover_image_path == self.cover_image_path
                &&& p.epub.volumes == self.volumes
                &&& p.epub.tags == self.tags
                &&& p.epub.url == self.url
                &&& self.epub_dir matches Some(d) && p.epub_dir == d
                &&& has_docs_for(spec_novel_of(self), self.id, p.docs)
                &&& p.cover_pages@.map(|_i: int, d: VolumeCoverDoc| (d.path@, d.content@))
                    == spec_cover_docs(self.volumes@, self.volumes@.len() as int)
                &&& (self.epub_dir matches Some(d) && p.epub_filename@ == spec_epub_filename(d@))
            },
    {
        let ghost b = self;
        let dir = match self.epub_dir {
            Some(d) => d,
            None => {
                return Err(EpubBuildError::MissingEpubDir);
            },
        };
        let novel = NovelInfo {
            title: self.title,
            author: self.author,
            illustrator: self.illustrator,
            summary: self.summary,
            cover_image_path: self.cover_image_path,
            volumes: self.volumes,
            tags: self.tags,
            url: self.url,
        };
        proof {
            assert(novel == spec_novel_of(b));
        }
        let generator = EpubGenerator::new();
        let docs = generator.generate_epub_metadata(&novel, self.id);
        proof {
            assert(exists|date: Seq<char>| #[trigger] spec_docs_for(novel, b.id, date, docs));
            let d0 = choose|date: Seq<char>| #[trigger] spec_docs_for(novel, b.id, date, docs);
            assert(spec_docs_for(spec_novel_of(b), b.id, d0, docs));
            assert(has_docs_for(spec_novel_of(b), b.id, docs));
        }
        let chapter_generator = ChapterGenerator::new();
        let cover_pages = chapter_generator.generate_all_volume_cover_chapters(&novel);
        let epub_filename = crate::paths::epub_filename(dir.as_str());
        let epub = Epub {
            id: self.id,
            title: novel.title,
            author: novel.author,
            illustrator: novel.illustrator,
            summary: novel.summary,
            cover_image_path: novel.cover_image_path,
            volumes: novel.volumes,
            tags: novel.tags,
            url: novel.url,
        };
        Ok(EpubPlan { epub, epub_dir: dir, docs, cover_pages, epub_filename })
    }
}

} // verus!
