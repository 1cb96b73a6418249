//! The scraped novel hierarchy handed to the package assembly engine:
//! a novel owns volumes in reading order, a volume owns chapters in reading
//! order, and each chapter records whether its content document was produced
//! and which of its illustrations were persisted locally.

use vstd::prelude::*;

verus! {

/// One chapter of a volume. `xhtml_path` is present exactly when the
/// chapter's content document was rendered and written (a failed fetch leaves
/// it `None`); `illustration_paths` lists the chapter's locally persisted
/// inline images, relative to the package's image root, in document order.
#[derive(Debug, Clone)]
pub struct Chapter {
    pub title: String,
    pub url: String,
    pub has_illustrations: bool,
    pub xhtml_path: Option<String>,
    pub illustration_paths: Vec<String>,
}

/// One volume of a novel. `cover_image_path` is present exactly when the
/// volume's cover image was resolved to a local file (relative to the
/// package's content root, e.g. `images/Volume_1.jpg`).
#[derive(Debug, Clone)]
pub struct Volume {
    pub title: String,
    pub volume_id: String,
    pub cover_image_path: Option<String>,
    pub chapters: Vec<Chapter>,
}

/// A fully scraped novel: display metadata plus the ordered volumes.
#[derive(Debug, Clone)]
pub struct NovelInfo {
    pub title: String,
    pub author: String,
    pub illustrator: Option<String>,
    pub summary: String,
    pub cover_image_path: Option<String>,
    pub volumes: Vec<Volume>,
    pub tags: Vec<String>,
    pub url: String,
}

/// Which listing section of the source site a novel lives under.
#[derive(Debug)]
pub enum NovelCategory {
    SangTac,
    AiDich,
}

impl NovelCategory {
    /// URL path segment of the listing section.
    pub fn to_url_path(&self) -> (r: &'static str)
        ensures
            matches!(self, NovelCategory::SangTac) ==> r@ == "sang-tac"@,
            matches!(self, NovelCategory::AiDich) ==> r@ == "ai-dich"@,
    {
        match self {
            NovelCategory::SangTac => "sang-tac",
            NovelCategory::AiDich => "ai-dich",
        }
    }
}

} // verus!
