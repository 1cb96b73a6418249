//! Structure assembler: walks the novel → volume → chapter tree and produces
//! the package model — the manifest entry list, the linear reading order
//! (spine) and the hierarchical navigation tree with its play-order counter.
//!
//! Addressing: every unit (a chapter content document or a synthetic
//! volume-cover document) is identified by the pair (volume ordinal, unit
//! ordinal), both 1-based, with unit ordinal 0 reserved for the synthetic
//! volume-cover document. A chapter whose content document was never
//! produced is absent from manifest, spine and navigation alike.

use vstd::prelude::*;
use vstd::string::*;
use crate::models::{Chapter, Volume, NovelInfo};
use crate::paths::spec_unit_rel_path;
use crate::paths::unit_rel_path;
use crate::textfmt::{spec_ends_with, str_ends_with};
use crate::content::{spec_filename_of, filename_of};

verus! {

/// Manifest media type of a package file.
#[derive(Debug, PartialEq, Eq, Structural, Clone, Copy)]
pub enum MediaType {
    Xhtml,
    Ncx,
    ImageJpeg,
    ImagePng,
}

/// Identifier of a manifest entry.
#[derive(Debug)]
pub enum EntryId {
    /// The navigation document.
    Ncx,
    /// The novel cover image.
    CoverImage,
    /// The cover image of the volume with this 1-based ordinal.
    VolumeCover(usize),
    /// An inline illustration: volume ordinal, chapter ordinal, file name.
    Illustration(usize, usize, String),
    /// A content document: volume ordinal and unit ordinal (0 is the
    /// synthetic volume-cover document).
    Unit(usize, usize),
}

/// Mathematical shape of an entry identifier.
pub enum IdView {
    Ncx,
    CoverImage,
    VolumeCover(int),
    Illustration(int, int, Seq<char>),
    Unit(int, int),
}

impl View for EntryId {
    type V = IdView;

    open spec fn view(&self) -> IdView {
        match self {
            EntryId::Ncx => IdView::Ncx,
            EntryId::CoverImage => IdView::CoverImage,
            EntryId::VolumeCover(v) => IdView::VolumeCover(*v as int),
            EntryId::Illustration(v, c, f) => IdView::Illustration(*v as int, *c as int, f@),
            EntryId::Unit(v, u) => IdView::Unit(*v as int, *u as int),
        }
    }
}

/// One file of the package, as listed in the manifest.
#[derive(Debug)]
pub struct ManifestEntry {
    pub id: EntryId,
    pub href: String,
    pub media_type: MediaType,
}

/// Mathematical shape of a manifest entry.
pub struct EntryView {
    pub id: IdView,
    pub href: Seq<char>,
    pub media_type: MediaType,
}

impl View for ManifestEntry {
    type V = EntryView;

    open spec fn view(&self) -> EntryView {
        EntryView { id: self.id@, href: self.href@, media_type: self.media_type }
    }
}

/// A chapter node of the navigation tree.
#[derive(Debug)]
pub struct NavChild {
    pub title: String,
    pub target: String,
    pub play_order: usize,
}

/// Mathematical shape of a chapter navigation node.
pub struct NavChildView {
    pub title: Seq<char>,
    pub target: Seq<char>,
    pub play_order: int,
}

impl View for NavChild {
    type V = NavChildView;

    open spec fn view(&self) -> NavChildView {
        NavChildView { title: self.title@, target: self.target@, play_order: self.play_order as int }
    }
}

/// A volume node of the navigation tree, with one child per surviving
/// chapter.
#[derive(Debug)]
pub struct NavPoint {
    pub title: String,
    pub target: String,
    pub play_order: usize,
    pub children: Vec<NavChild>,
}

/// Mathematical shape of a volume navigation node.
pub struct NavVolView {
    pub title: Seq<char>,
    pub target: Seq<char>,
    pub play_order: int,
    pub children: Seq<NavChildView>,
}

impl View for NavPoint {
    type V = NavVolView;

    open spec fn view(&self) -> NavVolView {
        NavVolView {
            title: self.title@,
            target: self.target@,
            play_order: self.play_order as int,
            children: self.children@.map(|_i: int, c: NavChild| c@),
        }
    }
}

/// The fully assembled in-memory package model.
#[derive(Debug)]
pub struct PackageModel {
    pub manifest: Vec<ManifestEntry>,
    pub spine: Vec<EntryId>,
    pub nav: Vec<NavPoint>,
}

/// The surviving chapters among the first `m` of a chapter list, in order.
pub open spec fn spec_surviving(chs: Seq<Chapter>, m: int) -> Seq<Chapter>
    decreases m,
{
    if m <= 0 {
        Seq::empty()
    } else {
        let pre = spec_surviving(chs, m - 1);
        if chs[m - 1].xhtml_path is Some {
            pre.push(chs[m - 1])
        } else {
            pre
        }
    }
}

/// All surviving chapters of a volume, in reading order.
pub open spec fn spec_surviving_of(v: Volume) -> Seq<Chapter> {
    spec_surviving(v.chapters@, v.chapters@.len() as int)
}

/// The content document path of a chapter (empty when none was produced).
pub open spec fn spec_target(c: Chapter) -> Seq<char> {
    match c.xhtml_path {
        Some(p) => p@,
        None => Seq::empty(),
    }
}

/// Media type of an image file, by its name's suffix.
pub open spec fn spec_image_media(name: Seq<char>) -> MediaType {
    if spec_ends_with(name, ".png"@) {
        MediaType::ImagePng
    } else {
        MediaType::ImageJpeg
    }
}

// ---------------------------------------------------------------------------
// Spine
// ---------------------------------------------------------------------------

/// Unit ids contributed to the spine by the first `m` chapters of the volume
/// with ordinal `ord`: one id per surviving chapter, at unit ordinal
/// (chapter index + 1).
pub open spec fn spec_chapter_units(chs: Seq<Chapter>, ord: int, m: int) -> Seq<IdView>
    decreases m,
{
    if m <= 0 {
        Seq::empty()
    } else {
        let pre = spec_chapter_units(chs, ord, m - 1);
        if chs[m - 1].xhtml_path is Some {
            pre.push(IdView::Unit(ord, m))
        } else {
            pre
        }
    }
}

/// Unit ids contributed to the spine by one volume: its volume-cover unit
/// (ordinal 0) when it has a resolved cover, then its surviving chapters.
pub open spec fn spec_volume_units(v: Volume, ord: int) -> Seq<IdView> {
    (match v.cover_image_path {
        Some(_) => seq![IdView::Unit(ord, 0)],
        None => Seq::empty(),
    }) + spec_chapter_units(v.chapters@, ord, v.chapters@.len() as int)
}

/// The linear reading order over the first `n` volumes.
pub open spec fn spec_spine(vols: Seq<Volume>, n: int) -> Seq<IdView>
    decreases n,
{
    if n <= 0 {
        Seq::empty()
    } else {
        spec_spine(vols, n - 1) + spec_volume_units(vols[n - 1], n)
    }
}

// ---------------------------------------------------------------------------
// Manifest
// ---------------------------------------------------------------------------

/// The fixed leading manifest entries: the navigation document, and the
/// novel cover image when one was resolved.
pub open spec fn spec_manifest_base(novel: NovelInfo) -> Seq<EntryView> {
    seq![EntryView { id: IdView::Ncx, href: "toc.ncx"@, media_type: MediaType::Ncx }] + (
    match novel.cover_image_path {
        Some(p) => seq![
            EntryView { id: IdView::CoverImage, href: p@, media_type: spec_image_media(p@) },
        ],
        None => Seq::empty(),
    })
}

/// Volume cover image entries of the first `n` volumes.
pub open spec fn spec_cover_entries(vols: Seq<Volume>, n: int) -> Seq<EntryView>
    decreases n,
{
    if n <= 0 {
        Seq::empty()
    } else {
        let pre = spec_cover_entries(vols, n - 1);
        match vols[n - 1].cover_image_path {
            Some(p) => pre.push(
                EntryView {
                    id: IdView::VolumeCover(n),
                    href: p@,
                    media_type: spec_image_media(p@),
                },
            ),
            None => pre,
        }
    }
}

/// Entries of the first `m` persisted illustrations of one chapter. Each
/// path is image-root-relative; its href carries the image root prefix.
pub open spec fn spec_chapter_illus(paths: Seq<String>, ord: int, cord: int, m: int) -> Seq<
    EntryView,
>
    decreases m,
{
    if m <= 0 {
        Seq::empty()
    } else {
        spec_chapter_illus(paths, ord, cord, m - 1).push(
            EntryView {
                id: IdView::Illustration(ord, cord, spec_filename_of(paths[m - 1]@)),
                href: "images/"@ + paths[m - 1]@,
                media_type: spec_image_media(paths[m - 1]@),
            },
        )
    }
}

/// Illustration entries of the first `m` chapters of one volume.
pub open spec fn spec_volume_illus(chs: Seq<Chapter>, ord: int, m: int) -> Seq<EntryView>
    decreases m,
{
    if m <= 0 {
        Seq::empty()
    } else {
        spec_volume_illus(chs, ord, m - 1) + spec_chapter_illus(
            chs[m - 1].illustration_paths@,
            ord,
            m,
            chs[m - 1].illustration_paths@.len() as int,
        )
    }
}

/// Illustration entries of the first `n` volumes.
pub open spec fn spec_illus_entries(vols: Seq<Volume>, n: int) -> Seq<EntryView>
    decreases n,
{
    if n <= 0 {
        Seq::empty()
    } else {
        spec_illus_entries(vols, n - 1) + spec_volume_illus(
            vols[n - 1].chapters@,
            n,
            vols[n - 1].chapters@.len() as int,
        )
    }
}

/// Content document entries of the first `m` chapters of the volume with
/// ordinal `ord`: one per surviving chapter, at the path its renderer wrote.
pub open spec fn spec_chapter_unit_entries(chs: Seq<Chapter>, ord: int, m: int) -> Seq<EntryView>
    decreases m,
{
    if m <= 0 {
        Seq::empty()
    } else {
        let pre = spec_chapter_unit_entries(chs, ord, m - 1);
        if chs[m - 1].xhtml_path is Some {
            pre.push(
                EntryView {
                    id: IdView::Unit(ord, m),
                    href: spec_target(chs[m - 1]),
                    media_type: MediaType::Xhtml,
                },
            )
        } else {
            pre
        }
    }
}

/// Content document entries of one volume: the synthetic volume-cover
/// document when the volume has a resolved cover, then the surviving
/// chapters.
pub open spec fn spec_volume_unit_entries(v: Volume, ord: int) -> Seq<EntryView> {
    (match v.cover_image_path {
        Some(_) => seq![
            EntryView {
                id: IdView::Unit(ord, 0),
                href: spec_unit_rel_path(ord as nat, 0),
                media_type: MediaType::Xhtml,
            },
        ],
        None => Seq::empty(),
    }) + spec_chapter_unit_entries(v.chapters@, ord, v.chapters@.len() as int)
}

/// Content document entries of the first `n` volumes.
pub open spec fn spec_unit_entries(vols: Seq<Volume>, n: int) -> Seq<EntryView>
    decreases n,
{
    if n <= 0 {
        Seq::empty()
    } else {
        spec_unit_entries(vols, n - 1) + spec_volume_unit_entries(vols[n - 1], n)
    }
}

/// The full manifest: the fixed base, then volume covers, then
/// illustrations, then content documents.
pub open spec fn spec_manifest(novel: NovelInfo) -> Seq<EntryView> {
    spec_manifest_base(novel) + spec_cover_entries(novel.volumes@, novel.volumes@.len() as int)
        + spec_illus_entries(novel.volumes@, novel.volumes@.len() as int) + spec_unit_entries(
        novel.volumes@,
        novel.volumes@.len() as int,
    )
}

// ---------------------------------------------------------------------------
// Navigation
// ---------------------------------------------------------------------------

/// Child navigation nodes for a list of surviving chapters, with play
/// orders `start`, `start + 1`, ...
pub open spec fn spec_nav_children_of(surv: Seq<Chapter>, start: int) -> Seq<NavChildView> {
    Seq::new(
        surv.len(),
        |k: int|
            NavChildView {
                title: surv[k].title@,
                target: spec_target(surv[k]),
                play_order: start + k,
            },
    )
}

/// The navigation node of one volume, given the play-order counter at its
/// position: the node points at the volume-cover unit when the volume has a
/// resolved cover, else at its first surviving chapter, and its children
/// are the surviving chapters with consecutive play orders.
pub open spec fn spec_volume_nav(v: Volume, ord: int, ctr: int) -> NavVolView {
    NavVolView {
        title: v.title@,
        target: match v.cover_image_path {
            Some(_) => spec_unit_rel_path(ord as nat, 0),
            None => spec_target(spec_surviving_of(v)[0]),
        },
        play_order: ctr,
        children: spec_nav_children_of(spec_surviving_of(v), ctr + 1),
    }
}

/// The navigation nodes of the first `n` volumes together with the next
/// free play order. The counter starts at 1 and advances by one for every
/// node emitted, volume nodes and chapter nodes alike; a volume without
/// surviving chapters contributes nothing.
pub open spec fn spec_nav_upto(vols: Seq<Volume>, n: int) -> (Seq<NavVolView>, int)
    decreases n,
{
    if n <= 0 {
        (Seq::empty(), 1)
    } else {
        let (pre, ctr) = spec_nav_upto(vols, n - 1);
        if spec_surviving_of(vols[n - 1]).len() == 0 {
            (pre, ctr)
        } else {
            (
                pre.push(spec_volume_nav(vols[n - 1], n, ctr)),
                ctr + 1 + spec_surviving_of(vols[n - 1]).len(),
            )
        }
    }
}

/// The whole navigation tree of a novel.
pub open spec fn spec_nav(vols: Seq<Volume>) -> Seq<NavVolView> {
    spec_nav_upto(vols, vols.len() as int).0
}

// ---------------------------------------------------------------------------
// Executable assembly
// ---------------------------------------------------------------------------

proof fn lemma_surviving_none(chs: Seq<Chapter>, m: int)
    requires
        0 <= m <= chs.len(),
        forall|t: int| 0 <= t < m ==> !(chs[t].xhtml_path is Some),
    ensures
        spec_surviving(chs, m).len() == 0,
    decreases m,
{
    if m > 0 {
        lemma_surviving_none(chs, m - 1);
    }
}

proof fn lemma_surviving_first(chs: Seq<Chapter>, j0: int, m: int)
    requires
        0 <= j0 < m <= chs.len(),
        chs[j0].xhtml_path is Some,
        forall|t: int| 0 <= t < j0 ==> !(chs[t].xhtml_path is Some),
    ensures
        spec_surviving(chs, m).len() > 0,
        spec_surviving(chs, m)[0] == chs[j0],
    decreases m,
{
    if m - 1 == j0 {
        lemma_surviving_none(chs, j0);
    } else {
        lemma_surviving_first(chs, j0, m - 1);
    }
}

/// Number of surviving chapters in a chapter list.
fn surviving_count_exec(chs: &Vec<Chapter>) -> (cnt: usize)
    ensures
        cnt == spec_surviving(chs@, chs@.len() as int).len(),
{
    let mut cnt: usize = 0;
    let mut j: usize = 0;
    while j < chs.len()
        invariant
            j <= chs@.len(),
            cnt <= j,
            cnt == spec_surviving(chs@, j as int).len(),
        decreases chs@.len() - j,
    {
        if chs[j].xhtml_path.is_some() {
            cnt += 1;
        }
        j += 1;
    }
    cnt
}

/// Index of the first surviving chapter, if any.
fn first_surviving_index(chs: &Vec<Chapter>) -> (r: Option<usize>)
    ensures
        match r {
            Some(j) => j < chs@.len() && chs@[j as int].xhtml_path is Some && (forall|t: int|
                0 <= t < j ==> !(chs@[t].xhtml_path is Some)),
            None => forall|t: int| 0 <= t < chs@.len() ==> !(chs@[t].xhtml_path is Some),
        },
{
    let mut j: usize = 0;
    while j < chs.len()
        invariant
            j <= chs@.len(),
            forall|t: int| 0 <= t < j ==> !(chs@[t].xhtml_path is Some),
        decreases chs@.len() - j,
    {
        if chs[j].xhtml_path.is_some() {
            return Some(j);
        }
        j += 1;
    }
    None
}

/// Media type of an image file, by its name's suffix.
fn image_media(name: &str) -> (m: MediaType)
    ensures
        m == spec_image_media(name@),
{
    if str_ends_with(name, ".png") {
        MediaType::ImagePng
    } else {
        MediaType::ImageJpeg
    }
}

/// The linear reading order of a novel's volumes.
fn build_spine(vols: &Vec<Volume>) -> (r: Vec<EntryId>)
    ensures
        r@.map(|_i: int, id: EntryId| id@) == spec_spine(vols@, vols@.len() as int),
{
    let mut out: Vec<EntryId> = Vec::new();
    let mut i: usize = 0;
    proof {
        assert(out@.map(|_i: int, id: EntryId| id@) =~= spec_spine(vols@, 0));
    }
    while i < vols.len()
        invariant
            i <= vols@.len(),
            out@.map(|_i: int, id: EntryId| id@) == spec_spine(vols@, i as int),
        decreases vols@.len() - i,
    {
        let v = &vols[i];
        let ghost pre = spec_spine(vols@, i as int);
        let ghost cover_part = match v.cover_image_path {
            Some(_) => seq![IdView::Unit(i + 1, 0)],
            None => Seq::<IdView>::empty(),
        };
        if v.cover_image_path.is_some() {
            let ghost before = out@;
            out.push(EntryId::Unit(i + 1, 0));
            proof {
                assert(out@.map(|_i: int, id: EntryId| id@) =~= before.map(
                    |_i: int, id: EntryId| id@,
                ).push(IdView::Unit(i + 1, 0)));
            }
        }
        proof {
            assert(out@.map(|_i: int, id: EntryId| id@) =~= pre + cover_part + spec_chapter_units(
                v.chapters@,
                i + 1,
                0,
            ));
        }
        let mut j: usize = 0;
        while j < v.chapters.len()
            invariant
                j <= v.chapters@.len(),
                i < vols@.len(),
                i < usize::MAX,
                v == &vols@[i as int],
                pre == spec_spine(vols@, i as int),
                cover_part == (match v.cover_image_path {
                    Some(_) => seq![IdView::Unit(i + 1, 0)],
                    None => Seq::<IdView>::empty(),
                }),
                out@.map(|_i: int, id: EntryId| id@) == pre + cover_part + spec_chapter_units(
                    v.chapters@,
                    i + 1,
                    j as int,
                ),
            decreases v.chapters@.len() - j,
        {
            if v.chapters[j].xhtml_path.is_some() {
                let ghost before = out@;
                out.push(EntryId::Unit(i + 1, j + 1));
                proof {
                    assert(out@.map(|_i: int, id: EntryId| id@) =~= before.map(
                        |_i: int, id: EntryId| id@,
                    ).push(IdView::Unit(i + 1, j + 1)));
                    assert(out@.map(|_i: int, id: EntryId| id@) =~= pre + cover_part
                        + spec_chapter_units(v.chapters@, i + 1, j + 1));
                }
            }
            j += 1;
        }
        proof {
            assert(out@.map(|_i: int, id: EntryId| id@) =~= spec_spine(vols@, i + 1));
        }
        i += 1;
    }
    out
}

/// Volume cover image entries, in volume order.
fn build_cover_entries(vols: &Vec<Volume>) -> (r: Vec<ManifestEntry>)
    ensures
        r@.map(|_i: int, e: ManifestEntry| e@) == spec_cover_entries(vols@, vols@.len() as int),
{
    let mut out: Vec<ManifestEntry> = Vec::new();
    let mut i: usize = 0;
    proof {
        assert(out@.map(|_i: int, e: ManifestEntry| e@) =~= spec_cover_entries(vols@, 0));
    }
    while i < vols.len()
        invariant
            i <= vols@.len(),
            out@.map(|_i: int, e: ManifestEntry| e@) == spec_cover_entries(vols@, i as int),
        decreases vols@.len() - i,
    {
        match &vols[i].cover_image_path {
            Some(p) => {
                let ghost before = out@;
                let media_type = image_media(p.as_str());
                out.push(
                    ManifestEntry { id: EntryId::VolumeCover(i + 1), href: p.clone(), media_type },
                );
                proof {
                    assert(out@.map(|_i: int, e: ManifestEntry| e@) =~= before.map(
                        |_i: int, e: ManifestEntry| e@,
                    ).push(out@.last()@));
                    assert(out@.map(|_i: int, e: ManifestEntry| e@) =~= spec_cover_entries(
                        vols@,
                        i + 1,
                    ));
                }
            },
            None => {},
        }
        i += 1;
    }
    out
}

/// Illustration entries of one chapter, in document order.
fn build_chapter_illus(c: &Chapter, vol_index: usize, chap_index: usize) -> (r: Vec<ManifestEntry>)
    requires
        vol_index < usize::MAX,
        chap_index < usize::MAX,
    ensures
        r@.map(|_i: int, e: ManifestEntry| e@) == spec_chapter_illus(
            c.illustration_paths@,
            vol_index + 1,
            chap_index + 1,
            c.illustration_paths@.len() as int,
        ),
{
    let mut out: Vec<ManifestEntry> = Vec::new();
    let mut t: usize = 0;
    proof {
        assert(out@.map(|_i: int, e: ManifestEntry| e@) =~= spec_chapter_illus(
            c.illustration_paths@,
            vol_index + 1,
            chap_index + 1,
            0,
        ));
    }
    while t < c.illustration_paths.len()
        invariant
            t <= c.illustration_paths@.len(),
            vol_index < usize::MAX,
            chap_index < usize::MAX,
            out@.map(|_i: int, e: ManifestEntry| e@) == spec_chapter_illus(
                c.illustration_paths@,
                vol_index + 1,
                chap_index + 1,
                t as int,
            ),
        decreases c.illustration_paths@.len() - t,
    {
        let p = &c.illustration_paths[t];
        let fname = filename_of(p.as_str());
        let media_type = image_media(p.as_str());
        let mut href = String::new();
        href.append("images/");
        href.append(p.as_str());
        let ghost before = out@;
        out.push(
            ManifestEntry {
                id: EntryId::Illustration(vol_index + 1, chap_index + 1, fname),
                href,
                media_type,
            },
        );
        proof {
            assert(out@.map(|_i: int, e: ManifestEntry| e@) =~= before.map(
                |_i: int, e: ManifestEntry| e@,
            ).push(out@.last()@));
            assert(out@.map(|_i: int, e: ManifestEntry| e@) =~= spec_chapter_illus(
                c.illustration_paths@,
                vol_index + 1,
                chap_index + 1,
                t + 1,
            ));
        }
        t += 1;
    }
    out
}

/// Illustration entries of one volume, chapter by chapter.
fn build_volume_illus(v: &Volume, vol_index: usize) -> (r: Vec<ManifestEntry>)
    requires
        vol_index < usize::MAX,
    ensures
        r@.map(|_i: int, e: ManifestEntry| e@) == spec_volume_illus(
            v.chapters@,
            vol_index + 1,
            v.chapters@.len() as int,
        ),
{
    let mut out: Vec<ManifestEntry> = Vec::new();
    let mut j: usize = 0;
    proof {
        assert(out@.map(|_i: int, e: ManifestEntry| e@) =~= spec_volume_illus(
            v.chapters@,
            vol_index + 1,
            0,
        ));
    }
    while j < v.chapters.len()
        invariant
            j <= v.chapters@.len(),
            vol_index < usize::MAX,
            out@.map(|_i: int, e: ManifestEntry| e@) == spec_volume_illus(
                v.chapters@,
                vol_index + 1,
                j as int,
            ),
        decreases v.chapters@.len() - j,
    {
        let ghost before = out@;
        let mut part = build_chapter_illus(&v.chapters[j], vol_index, j);
        let ghost partv = part@;
        out.append(&mut part);
        proof {
            assert(out@.map(|_i: int, e: ManifestEntry| e@) =~= before.map(
                |_i: int, e: ManifestEntry| e@,
            ) + partv.map(|_i: int, e: ManifestEntry| e@));
            assert(out@.map(|_i: int, e: ManifestEntry| e@) =~= spec_volume_illus(
                v.chapters@,
                vol_index + 1,
                j + 1,
            ));
        }
        j += 1;
    }
    out
}

/// Illustration entries of the whole novel.
fn build_illus_entries(vols: &Vec<Volume>) -> (r: Vec<ManifestEntry>)
    ensures
        r@.map(|_i: int, e: ManifestEntry| e@) == spec_illus_entries(vols@, vols@.len() as int),
{
    let mut out: Vec<ManifestEntry> = Vec::new();
    let mut i: usize = 0;
    proof {
        assert(out@.map(|_i: int, e: ManifestEntry| e@) =~= spec_illus_entries(vols@, 0));
    }
    while i < vols.len()
        invariant
            i <= vols@.len(),
            out@.map(|_i: int, e: ManifestEntry| e@) == spec_illus_entries(vols@, i as int),
        decreases vols@.len() - i,
    {
        let ghost before = out@;
        let mut part = build_volume_illus(&vols[i], i);
        let ghost partv = part@;
        out.append(&mut part);
        proof {
            assert(out@.map(|_i: int, e: ManifestEntry| e@) =~= before.map(
                |_i: int, e: ManifestEntry| e@,
            ) + partv.map(|_i: int, e: ManifestEntry| e@));
            assert(out@.map(|_i: int, e: ManifestEntry| e@) =~= spec_illus_entries(vols@, i + 1));
        }
        i += 1;
    }
    out
}

/// Content document entries of one volume.
fn build_volume_unit_entries(v: &Volume, vol_index: usize) -> (r: Vec<ManifestEntry>)
    requires
        vol_index < usize::MAX,
    ensures
        r@.map(|_i: int, e: ManifestEntry| e@) == spec_volume_unit_entries(*v, vol_index + 1),
{
    let mut out: Vec<ManifestEntry> = Vec::new();
    let ghost cover_part = match v.cover_image_path {
        Some(_) => seq![
            EntryView {
                id: IdView::Unit(vol_index + 1, 0),
                href: spec_unit_rel_path((vol_index + 1) as nat, 0),
                media_type: MediaType::Xhtml,
            },
        ],
        None => Seq::<EntryView>::empty(),
    };
    if v.cover_image_path.is_some() {
        let href = unit_rel_path(vol_index, 0);
        out.push(
            ManifestEntry { id: EntryId::Unit(vol_index + 1, 0), href, media_type: MediaType::Xhtml },
        );
    }
    proof {
        assert(out@.map(|_i: int, e: ManifestEntry| e@) =~= cover_part + spec_chapter_unit_entries(
            v.chapters@,
            vol_index + 1,
            0,
        ));
    }
    let mut j: usize = 0;
    while j < v.chapters.len()
        invariant
            j <= v.chapters@.len(),
            vol_index < usize::MAX,
            cover_part == (match v.cover_image_path {
                Some(_) => seq![
                    EntryView {
                        id: IdView::Unit(vol_index + 1, 0),
                        href: spec_unit_rel_path((vol_index + 1) as nat, 0),
                        media_type: MediaType::Xhtml,
                    },
                ],
                None => Seq::<EntryView>::empty(),
            }),
            out@.map(|_i: int, e: ManifestEntry| e@) == cover_part + spec_chapter_unit_entries(
                v.chapters@,
                vol_index + 1,
                j as int,
            ),
        decreases v.chapters@.len() - j,
    {
        match &v.chapters[j].xhtml_path {
            Some(p) => {
                let ghost before = out@;
                out.push(
                    ManifestEntry {
                        id: EntryId::Unit(vol_index + 1, j + 1),
                        href: p.clone(),
                        media_type: MediaType::Xhtml,
                    },
                );
                proof {
                    assert(out@.map(|_i: int, e: ManifestEntry| e@) =~= before.map(
                        |_i: int, e: ManifestEntry| e@,
                    ).push(out@.last()@));
                    assert(out@.map(|_i: int, e: ManifestEntry| e@) =~= cover_part
                        + spec_chapter_unit_entries(v.chapters@, vol_index + 1, j + 1));
                }
            },
            None => {},
        }
        j += 1;
    }
    out
}

/// Content document entries of the whole novel.
fn build_unit_entries(vols: &Vec<Volume>) -> (r: Vec<ManifestEntry>)
    ensures
        r@.map(|_i: int, e: ManifestEntry| e@) == spec_unit_entries(vols@, vols@.len() as int),
{
    let mut out: Vec<ManifestEntry> = Vec::new();
    let mut i: usize = 0;
    proof {
        assert(out@.map(|_i: int, e: ManifestEntry| e@) =~= spec_unit_entries(vols@, 0));
    }
    while i < vols.len()
        invariant
            i <= vols@.len(),
            out@.map(|_i: int, e: ManifestEntry| e@) == spec_unit_entries(vols@, i as int),
        decreases vols@.len() - i,
    {
        let ghost before = out@;
        let mut part = build_volume_unit_entries(&vols[i], i);
        let ghost partv = part@;
        out.append(&mut part);
        proof {
            assert(out@.map(|_i: int, e: ManifestEntry| e@) =~= before.map(
                |_i: int, e: ManifestEntry| e@,
            ) + partv.map(|_i: int, e: ManifestEntry| e@));
            assert(out@.map(|_i: int, e: ManifestEntry| e@) =~= spec_unit_entries(vols@, i + 1));
        }
        i += 1;
    }
    out
}

/// The full manifest of a novel, in its canonical order: the navigation
/// document, the resolved novel cover, the resolved volume covers, the
/// persisted illustrations, and the content documents.
fn build_manifest(novel: &NovelInfo) -> (r: Vec<ManifestEntry>)
    ensures
        r@.map(|_i: int, e: ManifestEntry| e@) == spec_manifest(*novel),
{
    let vols = &novel.volumes;
    let mut out: Vec<ManifestEntry> = Vec::new();
    out.push(
        ManifestEntry { id: EntryId::Ncx, href: "toc.ncx".to_owned(), media_type: MediaType::Ncx },
    );
    match &novel.cover_image_path {
        Some(p) => {
            let media_type = image_media(p.as_str());
            out.push(ManifestEntry { id: EntryId::CoverImage, href: p.clone(), media_type });
        },
        None => {},
    }
    proof {
        assert(out@.map(|_i: int, e: ManifestEntry| e@) =~= spec_manifest_base(*novel));
    }
    let ghost base = out@.map(|_i: int, e: ManifestEntry| e@);
    let mut covers = build_cover_entries(vols);
    let ghost coversv = covers@;
    out.append(&mut covers);
    proof {
        assert(out@.map(|_i: int, e: ManifestEntry| e@) =~= base + coversv.map(
            |_i: int, e: ManifestEntry| e@,
        ));
    }
    let ghost with_covers = out@.map(|_i: int, e: ManifestEntry| e@);
    let mut illus = build_illus_entries(vols);
    let ghost illusv = illus@;
    out.append(&mut illus);
    proof {
        assert(out@.map(|_i: int, e: ManifestEntry| e@) =~= with_covers + illusv.map(
            |_i: int, e: ManifestEntry| e@,
        ));
    }
    let ghost with_illus = out@.map(|_i: int, e: ManifestEntry| e@);
    let mut units = build_unit_entries(vols);
    let ghost unitsv = units@;
    out.append(&mut units);
    proof {
        assert(out@.map(|_i: int, e: ManifestEntry| e@) =~= with_illus + unitsv.map(
            |_i: int, e: ManifestEntry| e@,
        ));
        assert(out@.map(|_i: int, e: ManifestEntry| e@) =~= spec_manifest(*novel));
    }
    out
}

/// The play-order counter is monotone in the number of volumes considered.
proof fn lemma_nav_counter_monotone(vols: Seq<Volume>, i: int, n: int)
    requires
        0 <= i <= n,
    ensures
        spec_nav_upto(vols, i).1 <= spec_nav_upto(vols, n).1,
    decreases n,
{
    if n > i {
        lemma_nav_counter_monotone(vols, i, n - 1);
    }
}

/// The play-order counter after the whole navigation tree of a novel.
pub open spec fn spec_nav_counter(vols: Seq<Volume>) -> int {
    spec_nav_upto(vols, vols.len() as int).1
}

/// Whether the navigation play-order counter of these volumes stays within
/// the machine's integer range, which `assemble` requires.
pub fn nav_counter_fits(vols: &Vec<Volume>) -> (b: bool)
    ensures
        b == (spec_nav_counter(vols@) <= usize::MAX),
{
    let mut over = false;
    let mut c: usize = 1;
    let mut i: usize = 0;
    while i < vols.len()
        invariant
            i <= vols@.len(),
            !over ==> c == spec_nav_upto(vols@, i as int).1,
            over ==> spec_nav_upto(vols@, i as int).1 > usize::MAX,
        decreases vols@.len() - i,
    {
        let surv = surviving_count_exec(&vols[i].chapters);
        if surv > 0 {
            if over {
                proof {
                    lemma_nav_counter_monotone(vols@, i as int, i + 1);
                }
            } else {
                let room = usize::MAX - c;
                if surv < room {
                    c = c + 1 + surv;
                } else {
                    over = true;
                }
            }
        }
        i += 1;
    }
    !over
}

/// The navigation tree of a novel: one node per volume with at least one
/// surviving chapter, holding one child per surviving chapter, every node
/// carrying the next play order.
fn build_nav(novel: &NovelInfo) -> (r: Vec<NavPoint>)
    requires
        spec_nav_counter(novel.volumes@) <= usize::MAX,
    ensures
        r@.map(|_i: int, p: NavPoint| p@) == spec_nav(novel.volumes@),
{
    let vols = &novel.volumes;
    let mut out: Vec<NavPoint> = Vec::new();
    let mut ctr: usize = 1;
    let mut i: usize = 0;
    proof {
        assert(out@.map(|_i: int, p: NavPoint| p@) =~= spec_nav_upto(vols@, 0).0);
    }
    while i < vols.len()
        invariant
            i <= vols@.len(),
            vols == &novel.volumes,
            spec_nav_counter(novel.volumes@) <= usize::MAX,
            ctr == spec_nav_upto(vols@, i as int).1,
            out@.map(|_i: int, p: NavPoint| p@) == spec_nav_upto(vols@, i as int).0,
        decreases vols@.len() - i,
    {
        let v = &vols[i];
        let surv = surviving_count_exec(&v.chapters);
        if surv > 0 {
            proof {
                lemma_nav_counter_monotone(vols@, i + 1, vols@.len() as int);
                assert(spec_nav_upto(vols@, i + 1).1 == ctr + 1 + surv);
            }
            let target: String = match &v.cover_image_path {
                Some(_) => unit_rel_path(i, 0),
                None => {
                    match first_surviving_index(&v.chapters) {
                        Some(j0) => {
                            proof {
                                lemma_surviving_first(
                                    v.chapters@,
                                    j0 as int,
                                    v.chapters@.len() as int,
                                );
                            }
                            match &v.chapters[j0].xhtml_path {
                                Some(p) => p.clone(),
                                None => {
                                    proof {
                                        assert(false);
                                    }
                                    String::new()
                                },
                            }
                        },
                        None => {
                            proof {
                                lemma_surviving_none(v.chapters@, v.chapters@.len() as int);
                                assert(false);
                            }
                            String::new()
                        },
                    }
                },
            };
            let mut children: Vec<NavChild> = Vec::new();
            let mut k: usize = 0;
            let mut j: usize = 0;
            proof {
                assert(children@.map(|_i: int, c: NavChild| c@) =~= spec_nav_children_of(
                    spec_surviving(v.chapters@, 0),
                    ctr + 1,
                ));
            }
            while j < v.chapters.len()
                invariant
                    j <= v.chapters@.len(),
                    i < vols@.len(),
                    v == &vols@[i as int],
                    ctr + 1 + surv <= usize::MAX,
                    surv == spec_surviving(v.chapters@, v.chapters@.len() as int).len(),
                    k == spec_surviving(v.chapters@, j as int).len(),
                    children@.map(|_i: int, c: NavChild| c@) == spec_nav_children_of(
                        spec_surviving(v.chapters@, j as int),
                        ctr + 1,
                    ),
                decreases v.chapters@.len() - j,
            {
                proof {
                    lemma_surviving_prefix_len(v.chapters@, j as int, v.chapters@.len() as int);
                }
                match &v.chapters[j].xhtml_path {
                    Some(p) => {
                        let ghost before = children@;
                        children.push(
                            NavChild {
                                title: v.chapters[j].title.clone(),
                                target: p.clone(),
                                play_order: ctr + 1 + k,
                            },
                        );
                        k += 1;
                        proof {
                            assert(children@.map(|_i: int, c: NavChild| c@) =~= before.map(
                                |_i: int, c: NavChild| c@,
                            ).push(children@.last()@));
                            assert(children@.map(|_i: int, c: NavChild| c@)
                                =~= spec_nav_children_of(
                                spec_surviving(v.chapters@, j + 1),
                                ctr + 1,
                            ));
                        }
                    },
                    None => {},
                }
                j += 1;
            }
            let ghost before = out@;
            out.push(NavPoint { title: v.title.clone(), target, play_order: ctr, children });
            proof {
                assert(out@.map(|_i: int, p: NavPoint| p@) =~= before.map(
                    |_i: int, p: NavPoint| p@,
                ).push(out@.last()@));
                assert(out@.last()@ == spec_volume_nav(vols@[i as int], i + 1, ctr as int));
                assert(out@.map(|_i: int, p: NavPoint| p@) =~= spec_nav_upto(vols@, i + 1).0);
            }
            ctr = ctr + 1 + surv;
        }
        i += 1;
    }
    out
}

/// A prefix of a chapter list has at most as many surviving chapters as the
/// whole list.
proof fn lemma_surviving_prefix_len(chs: Seq<Chapter>, j: int, m: int)
    requires
        0 <= j <= m,
    ensures
        spec_surviving(chs, j).len() <= spec_surviving(chs, m).len(),
    decreases m,
{
    if m > j {
        lemma_surviving_prefix_len(chs, j, m - 1);
    }
}

/// Assembles the package model of a novel: manifest, spine and navigation
/// tree, each exactly as the corresponding specification function describes.
pub fn assemble(novel: &NovelInfo) -> (r: PackageModel)
    requires
        spec_nav_counter(novel.volumes@) <= usize::MAX,
    ensures
        r.manifest@.map(|_i: int, e: ManifestEntry| e@) == spec_manifest(*novel),
        r.spine@.map(|_i: int, id: EntryId| id@) == spec_spine(
            novel.volumes@,
            novel.volumes@.len() as int,
        ),
        r.nav@.map(|_i: int, p: NavPoint| p@) == spec_nav(novel.volumes@),
{
    PackageModel {
        manifest: build_manifest(novel),
        spine: build_spine(&novel.volumes),
        nav: build_nav(novel),
    }
}

// ---------------------------------------------------------------------------
// Laws
// ---------------------------------------------------------------------------

/// The volumes that contribute a navigation node: those among the first `n`
/// with at least one surviving chapter.
pub open spec fn spec_surviving_volumes(vols: Seq<Volume>, n: int) -> Seq<Volume>
    decreases n,
{
    if n <= 0 {
        Seq::empty()
    } else {
        let pre = spec_surviving_volumes(vols, n - 1);
        if spec_surviving_of(vols[n - 1]).len() > 0 {
            pre.push(vols[n - 1])
        } else {
            pre
        }
    }
}

/// The navigation tree has exactly one top-level node per volume with at
/// least one surviving chapter, in volume order, and each node carries that
/// volume's title and exactly one child per surviving chapter of that
/// volume.
pub proof fn lemma_navigation_shape(vols: Seq<Volume>, n: int)
    requires
        0 <= n,
    ensures
        spec_nav_upto(vols, n).0.len() == spec_surviving_volumes(vols, n).len(),
        forall|k: int|
            0 <= k < spec_nav_upto(vols, n).0.len() ==> #[trigger] spec_nav_upto(
                vols,
                n,
            ).0[k].children.len() == spec_surviving_of(spec_surviving_volumes(vols, n)[k]).len(),
        forall|k: int|
            0 <= k < spec_nav_upto(vols, n).0.len() ==> #[trigger] spec_nav_upto(vols, n).0[k].title
                == spec_surviving_volumes(vols, n)[k].title@,
    decreases n,
{
    if n > 0 {
        lemma_navigation_shape(vols, n - 1);
    }
}

/// The play orders of a navigation tree flattened in document order: each
/// volume node first, then its children.
pub open spec fn spec_flat_play_orders(nav: Seq<NavVolView>) -> Seq<int>
    decreases nav.len(),
{
    if nav.len() == 0 {
        Seq::empty()
    } else {
        spec_flat_play_orders(nav.drop_last()) + seq![nav.last().play_order] + nav.last().children
            .map(|_k: int, c: NavChildView| c.play_order)
    }
}

/// Play orders are strictly increasing by one, starting at 1, across the
/// whole navigation document, whatever the nesting: the flattened play
/// orders of the first `n` volumes are exactly 1, 2, ... and the next free
/// counter is one past them.
pub proof fn lemma_play_orders_consecutive(vols: Seq<Volume>, n: int)
    requires
        0 <= n,
    ensures
        spec_flat_play_orders(spec_nav_upto(vols, n).0).len() == spec_nav_upto(vols, n).1 - 1,
        forall|k: int|
            0 <= k < spec_flat_play_orders(spec_nav_upto(vols, n).0).len()
                ==> #[trigger] spec_flat_play_orders(spec_nav_upto(vols, n).0)[k] == k + 1,
    decreases n,
{
    if n > 0 {
        lemma_play_orders_consecutive(vols, n - 1);
        let (pre, ctr) = spec_nav_upto(vols, n - 1);
        let v = vols[n - 1];
        let surv = spec_surviving_of(v);
        if surv.len() > 0 {
            let node = spec_volume_nav(v, n, ctr);
            let nav = pre.push(node);
            assert(nav.drop_last() =~= pre);
            assert(nav.last() == node);
            let flat_pre = spec_flat_play_orders(pre);
            let childs = node.children.map(|_k: int, c: NavChildView| c.play_order);
            let flat = spec_flat_play_orders(nav);
            assert(flat == flat_pre + seq![node.play_order] + childs);
            assert(childs.len() == surv.len());
            assert forall|k: int| 0 <= k < flat.len() implies #[trigger] flat[k] == k + 1 by {
                if k < flat_pre.len() {
                    assert(flat[k] == flat_pre[k]);
                } else if k == flat_pre.len() {
                    assert(flat[k] == node.play_order);
                } else {
                    assert(flat[k] == childs[k - flat_pre.len() - 1]);
                    assert(childs[k - flat_pre.len() - 1] == ctr + 1 + (k - flat_pre.len() - 1));
                }
            }
        }
    }
}

/// Number of entries of the manifest-shaped sequence `s` whose id is `id`.
pub open spec fn spec_count_id(s: Seq<EntryView>, id: IdView) -> nat {
    s.filter(|e: EntryView| e.id == id).len()
}

proof fn lemma_count_none(s: Seq<EntryView>, id: IdView)
    requires
        forall|k: int| 0 <= k < s.len() ==> (#[trigger] s[k]).id != id,
    ensures
        spec_count_id(s, id) == 0,
    decreases s.len(),
{
    reveal(Seq::filter);
    if s.len() > 0 {
        assert(forall|k: int|
            0 <= k < s.drop_last().len() ==> (#[trigger] s.drop_last()[k]).id != id);
        lemma_count_none(s.drop_last(), id);
    }
}

proof fn lemma_count_single(s: Seq<EntryView>, id: IdView, pos: int)
    requires
        0 <= pos < s.len(),
        s[pos].id == id,
        forall|k: int| 0 <= k < s.len() && k != pos ==> (#[trigger] s[k]).id != id,
    ensures
        spec_count_id(s, id) == 1,
    decreases s.len(),
{
    reveal(Seq::filter);
    if pos == s.len() - 1 {
        assert(forall|k: int|
            0 <= k < s.drop_last().len() ==> (#[trigger] s.drop_last()[k]).id != id);
        lemma_count_none(s.drop_last(), id);
    } else {
        assert(forall|k: int|
            0 <= k < s.drop_last().len() && k != pos ==> (#[trigger] s.drop_last()[k]).id != id);
        lemma_count_single(s.drop_last(), id, pos);
        assert(s.last().id != id);
    }
}

/// Volume ordinal of a unit id (0 for other ids).
pub open spec fn spec_unit_vol(id: IdView) -> int {
    match id {
        IdView::Unit(v, _) => v,
        _ => 0,
    }
}

/// Unit ordinal of a unit id (0 for other ids).
pub open spec fn spec_unit_ord(id: IdView) -> int {
    match id {
        IdView::Unit(_, u) => u,
        _ => 0,
    }
}

proof fn lemma_chapter_units_shape(chs: Seq<Chapter>, ord: int, m: int)
    requires
        0 <= m,
    ensures
        forall|k: int|
            0 <= k < spec_chapter_units(chs, ord, m).len() ==> (#[trigger] spec_chapter_units(
                chs,
                ord,
                m,
            )[k]) is Unit && spec_unit_vol(spec_chapter_units(chs, ord, m)[k]) == ord && 1
                <= spec_unit_ord(spec_chapter_units(chs, ord, m)[k]) <= m,
        forall|k1: int, k2: int|
            0 <= k1 < k2 < spec_chapter_units(chs, ord, m).len() ==> spec_unit_ord(
                #[trigger] spec_chapter_units(chs, ord, m)[k1],
            ) < spec_unit_ord(#[trigger] spec_chapter_units(chs, ord, m)[k2]),
    decreases m,
{
    if m > 0 {
        lemma_chapter_units_shape(chs, ord, m - 1);
    }
}

proof fn lemma_volume_units_shape(v: Volume, ord: int)
    ensures
        forall|k: int|
            0 <= k < spec_volume_units(v, ord).len() ==> (#[trigger] spec_volume_units(
                v,
                ord,
            )[k]) is Unit && spec_unit_vol(spec_volume_units(v, ord)[k]) == ord && 0
                <= spec_unit_ord(spec_volume_units(v, ord)[k]),
        forall|k1: int, k2: int|
            0 <= k1 < k2 < spec_volume_units(v, ord).len() ==> spec_unit_ord(
                #[trigger] spec_volume_units(v, ord)[k1],
            ) < spec_unit_ord(#[trigger] spec_volume_units(v, ord)[k2]),
{
    let m = v.chapters@.len() as int;
    lemma_chapter_units_shape(v.chapters@, ord, m);
    let cu = spec_chapter_units(v.chapters@, ord, m);
    let vu = spec_volume_units(v, ord);
    match v.cover_image_path {
        Some(_) => {
            assert(vu.len() == 1 + cu.len());
            assert(vu[0] == IdView::Unit(ord, 0));
            assert(forall|k: int| 1 <= k < vu.len() ==> vu[k] == cu[k - 1]);
        },
        None => {
            assert(vu =~= cu);
        },
    }
}

pub(crate) proof fn lemma_spine_shape(vols: Seq<Volume>, n: int)
    requires
        0 <= n,
    ensures
        forall|k: int|
            0 <= k < spec_spine(vols, n).len() ==> (#[trigger] spec_spine(vols, n)[k]) is Unit && 1
                <= spec_unit_vol(spec_spine(vols, n)[k]) <= n && 0 <= spec_unit_ord(
                spec_spine(vols, n)[k],
            ),
        forall|k1: int, k2: int|
            0 <= k1 < k2 < spec_spine(vols, n).len() ==> #[trigger] spec_spine(vols, n)[k1]
                != #[trigger] spec_spine(vols, n)[k2],
    decreases n,
{
    if n > 0 {
        lemma_spine_shape(vols, n - 1);
        lemma_volume_units_shape(vols[n - 1], n);
        let pre = spec_spine(vols, n - 1);
        let vu = spec_volume_units(vols[n - 1], n);
        let sp = spec_spine(vols, n);
        assert forall|k1: int, k2: int| 0 <= k1 < k2 < sp.len() implies #[trigger] sp[k1]
            != #[trigger] sp[k2] by {
            if k2 < pre.len() {
                assert(sp[k1] == pre[k1] && sp[k2] == pre[k2]);
            } else if k1 >= pre.len() {
                assert(sp[k1] == vu[k1 - pre.len()] && sp[k2] == vu[k2 - pre.len()]);
                assert(spec_unit_ord(sp[k1]) < spec_unit_ord(sp[k2]));
            } else {
                assert(sp[k1] == pre[k1] && sp[k2] == vu[k2 - pre.len()]);
                assert(spec_unit_vol(sp[k1]) < n && spec_unit_vol(sp[k2]) == n);
            }
        }
    }
}

proof fn lemma_chapter_unit_entry_ids(chs: Seq<Chapter>, ord: int, m: int)
    requires
        0 <= m,
    ensures
        spec_chapter_unit_entries(chs, ord, m).map(|_k: int, e: EntryView| e.id)
            == spec_chapter_units(chs, ord, m),
    decreases m,
{
    if m > 0 {
        lemma_chapter_unit_entry_ids(chs, ord, m - 1);
        if chs[m - 1].xhtml_path is Some {
            assert(spec_chapter_unit_entries(chs, ord, m).map(|_k: int, e: EntryView| e.id)
                =~= spec_chapter_unit_entries(chs, ord, m - 1).map(
                |_k: int, e: EntryView| e.id,
            ).push(IdView::Unit(ord, m)));
        }
    } else {
        assert(spec_chapter_unit_entries(chs, ord, m).map(|_k: int, e: EntryView| e.id)
            =~= spec_chapter_units(chs, ord, m));
    }
}

pub(crate) proof fn lemma_unit_entry_ids(vols: Seq<Volume>, n: int)
    requires
        0 <= n,
    ensures
        spec_unit_entries(vols, n).map(|_k: int, e: EntryView| e.id) == spec_spine(vols, n),
    decreases n,
{
    if n > 0 {
        lemma_unit_entry_ids(vols, n - 1);
        let v = vols[n - 1];
        lemma_chapter_unit_entry_ids(v.chapters@, n, v.chapters@.len() as int);
        assert(spec_volume_unit_entries(v, n).map(|_k: int, e: EntryView| e.id)
            =~= spec_volume_units(v, n));
        assert(spec_unit_entries(vols, n).map(|_k: int, e: EntryView| e.id) =~= spec_unit_entries(
            vols,
            n - 1,
        ).map(|_k: int, e: EntryView| e.id) + spec_volume_unit_entries(v, n).map(
            |_k: int, e: EntryView| e.id,
        ));
    } else {
        assert(spec_unit_entries(vols, n).map(|_k: int, e: EntryView| e.id) =~= spec_spine(
            vols,
            n,
        ));
    }
}

pub(crate) proof fn lemma_cover_entries_not_unit(vols: Seq<Volume>, n: int)
    requires
        0 <= n,
    ensures
        forall|k: int|
            0 <= k < spec_cover_entries(vols, n).len() ==> !((#[trigger] spec_cover_entries(
                vols,
                n,
            )[k]).id is Unit),
    decreases n,
{
    if n > 0 {
        lemma_cover_entries_not_unit(vols, n - 1);
    }
}

proof fn lemma_chapter_illus_not_unit(paths: Seq<String>, ord: int, cord: int, m: int)
    requires
        0 <= m,
    ensures
        forall|k: int|
            0 <= k < spec_chapter_illus(paths, ord, cord, m).len() ==> !((
            #[trigger] spec_chapter_illus(paths, ord, cord, m)[k]).id is Unit),
    decreases m,
{
    if m > 0 {
        lemma_chapter_illus_not_unit(paths, ord, cord, m - 1);
    }
}

proof fn lemma_volume_illus_not_unit(chs: Seq<Chapter>, ord: int, m: int)
    requires
        0 <= m,
    ensures
        forall|k: int|
            0 <= k < spec_volume_illus(chs, ord, m).len() ==> !((#[trigger] spec_volume_illus(
                chs,
                ord,
                m,
            )[k]).id is Unit),
    decreases m,
{
    if m > 0 {
        lemma_volume_illus_not_unit(chs, ord, m - 1);
        lemma_chapter_illus_not_unit(
            chs[m - 1].illustration_paths@,
            ord,
            m,
            chs[m - 1].illustration_paths@.len() as int,
        );
    }
}

pub(crate) proof fn lemma_illus_entries_not_unit(vols: Seq<Volume>, n: int)
    requires
        0 <= n,
    ensures
        forall|k: int|
            0 <= k < spec_illus_entries(vols, n).len() ==> !((#[trigger] spec_illus_entries(
                vols,
                n,
            )[k]).id is Unit),
    decreases n,
{
    if n > 0 {
        lemma_illus_entries_not_unit(vols, n - 1);
        lemma_volume_illus_not_unit(vols[n - 1].chapters@, n, vols[n - 1].chapters@.len() as int);
    }
}

/// Spine/manifest referential integrity: every id the spine references
/// exists in the manifest, exactly once — no duplicates, no danglers.
pub proof fn lemma_spine_manifest_integrity(novel: NovelInfo)
    ensures
        forall|si: int|
            0 <= si < spec_spine(novel.volumes@, novel.volumes@.len() as int).len()
                ==> spec_count_id(
                spec_manifest(novel),
                #[trigger] spec_spine(novel.volumes@, novel.volumes@.len() as int)[si],
            ) == 1,
{
    let vols = novel.volumes@;
    let n = vols.len() as int;
    let sp = spec_spine(vols, n);
    let m = spec_manifest(novel);
    let base = spec_manifest_base(novel);
    let covers = spec_cover_entries(vols, n);
    let illus = spec_illus_entries(vols, n);
    let units = spec_unit_entries(vols, n);
    let pre = base + covers + illus;
    lemma_spine_shape(vols, n);
    lemma_unit_entry_ids(vols, n);
    lemma_cover_entries_not_unit(vols, n);
    lemma_illus_entries_not_unit(vols, n);
    assert(units.map(|_k: int, e: EntryView| e.id).len() == units.len());
    assert forall|k: int| 0 <= k < pre.len() implies !((#[trigger] pre[k]).id is Unit) by {
        if k < base.len() {
            assert(pre[k] == base[k]);
        } else if k < base.len() + covers.len() {
            assert(pre[k] == covers[k - base.len()]);
        } else {
            assert(pre[k] == illus[k - base.len() - covers.len()]);
        }
    }
    assert forall|si: int| 0 <= si < sp.len() implies spec_count_id(m, #[trigger] sp[si])
        == 1 by {
        let id = sp[si];
        let idpred = |e: EntryView| e.id == id;
        Seq::filter_distributes_over_add(pre, units, idpred);
        assert(m =~= pre + units);
        assert(forall|k: int| 0 <= k < pre.len() ==> (#[trigger] pre[k]).id != id);
        lemma_count_none(pre, id);
        assert(units[si].id == sp[si]);
        assert forall|k: int| 0 <= k < units.len() && k != si implies (#[trigger] units[k]).id
            != id by {
            assert(units[k].id == sp[k]);
        }
        lemma_count_single(units, id, si);
        assert(spec_count_id(m, id) == spec_count_id(pre, id) + spec_count_id(units, id));
    }
}

} // verus!
