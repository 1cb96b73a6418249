//! Package writer: serializes the package manifest document and the
//! navigation document from the assembled package model, together with the
//! fixed declaration file and the container pointer file.

use vstd::prelude::*;
use vstd::string::*;
use crate::models::NovelInfo;
use crate::assemble::{
    assemble, spec_nav_counter, spec_manifest, spec_spine, spec_nav, EntryId, IdView, EntryView,
    ManifestEntry, MediaType, NavPoint, NavChild, NavChildView, NavVolView, PackageModel,
};
use crate::textfmt::{spec_dec, spec_is_digit, lemma_dec_digits, lemma_dec_injective, u32_string, usize_string};

verus! {

/// The package's reserved media-type marker, the exact bytes of the
/// declaration file.
pub open spec fn spec_mimetype() -> Seq<char> {
    "application/epub+zip"@
}

/// The declaration file's content.
pub fn mimetype_content() -> (r: &'static str)
    ensures
        r@ == spec_mimetype(),
{
    "application/epub+zip"
}

/// The container pointer file, naming the package manifest's location.
pub open spec fn spec_container_xml() -> Seq<char> {
    "<?xml version=\"1.0\" encoding=\"UTF-8\"?>\n<container version=\"1.0\" xmlns=\"urn:oasis:names:tc:opendocument:xmlns:container\">\n    <rootfiles>\n        <rootfile full-path=\"OEBPS/content.opf\" media-type=\"application/oebps-package+xml\"/>\n    </rootfiles>\n</container>"@
}

/// The container pointer file's content.
pub fn container_xml() -> (r: &'static str)
    ensures
        r@ == spec_container_xml(),
{
    "<?xml version=\"1.0\" encoding=\"UTF-8\"?>\n<container version=\"1.0\" xmlns=\"urn:oasis:names:tc:opendocument:xmlns:container\">\n    <rootfiles>\n        <rootfile full-path=\"OEBPS/content.opf\" media-type=\"application/oebps-package+xml\"/>\n    </rootfiles>\n</container>"
}

/// Textual id of a manifest entry.
pub open spec fn spec_render_id(id: IdView) -> Seq<char> {
    match id {
        IdView::Ncx => "ncx"@,
        IdView::CoverImage => "cover-image"@,
        IdView::VolumeCover(v) => "volume"@ + spec_dec(v as nat) + "-cover"@,
        IdView::Illustration(v, c, f) => "vol"@ + spec_dec(v as nat) + "_chap"@ + spec_dec(
            c as nat,
        ) + "_img"@ + f,
        IdView::Unit(v, u) => "chapter"@ + spec_dec(v as nat) + "_"@ + spec_dec(u as nat),
    }
}

/// Manifest media-type attribute value.
pub open spec fn spec_render_media(m: MediaType) -> Seq<char> {
    match m {
        MediaType::Xhtml => "application/xhtml+xml"@,
        MediaType::Ncx => "application/x-dtbncx+xml"@,
        MediaType::ImageJpeg => "image/jpeg"@,
        MediaType::ImagePng => "image/png"@,
    }
}

fn render_entry_id(id: &EntryId) -> (r: String)
    ensures
        r@ == spec_render_id(id@),
{
    match id {
        EntryId::Ncx => {
            let mut s = String::new();
            s.append("ncx");
            assert(s@ =~= spec_render_id(id@));
            s
        },
        EntryId::CoverImage => {
            let mut s = String::new();
            s.append("cover-image");
            assert(s@ =~= spec_render_id(id@));
            s
        },
        EntryId::VolumeCover(v) => {
            let mut s = String::new();
            s.append("volume");
            let d = usize_string(*v);
            s.append(d.as_str());
            s.append("-cover");
            assert(s@ =~= spec_render_id(id@));
            s
        },
        EntryId::Illustration(v, c, f) => {
            let mut s = String::new();
            s.append("vol");
            let d = usize_string(*v);
            s.append(d.as_str());
            s.append("_chap");
            let d2 = usize_string(*c);
            s.append(d2.as_str());
            s.append("_img");
            s.append(f.as_str());
            assert(s@ =~= spec_render_id(id@));
            s
        },
        EntryId::Unit(v, u) => {
            let mut s = String::new();
            s.append("chapter");
            let d = usize_string(*v);
            s.append(d.as_str());
            s.append("_");
            let d2 = usize_string(*u);
            s.append(d2.as_str());
            assert(s@ =~= spec_render_id(id@));
            s
        },
    }
}

fn render_media(m: MediaType) -> (r: &'static str)
    ensures
        r@ == spec_render_media(m),
{
    match m {
        MediaType::Xhtml => "application/xhtml+xml",
        MediaType::Ncx => "application/x-dtbncx+xml",
        MediaType::ImageJpeg => "image/jpeg",
        MediaType::ImagePng => "image/png",
    }
}

/// One manifest item line.
pub open spec fn spec_opf_item(e: EntryView) -> Seq<char> {
    "\n        <item id=\""@ + spec_render_id(e.id) + "\" href=\""@ + e.href + "\" media-type=\""@
        + spec_render_media(e.media_type) + "\"/>"@
}

/// The manifest item lines of all entries, in order.
pub open spec fn spec_opf_items(entries: Seq<EntryView>) -> Seq<char>
    decreases entries.len(),
{
    if entries.len() == 0 {
        Seq::empty()
    } else {
        spec_opf_item(entries[0]) + spec_opf_items(entries.skip(1))
    }
}

/// One spine reference line.
pub open spec fn spec_spine_ref(id: IdView) -> Seq<char> {
    "\n        <itemref idref=\""@ + spec_render_id(id) + "\"/>"@
}

/// The spine reference lines, in reading order.
pub open spec fn spec_spine_refs(sp: Seq<IdView>) -> Seq<char>
    decreases sp.len(),
{
    if sp.len() == 0 {
        Seq::empty()
    } else {
        spec_spine_ref(sp[0]) + spec_spine_refs(sp.skip(1))
    }
}

/// One subject line per tag.
pub open spec fn spec_subjects(tags: Seq<String>) -> Seq<char>
    decreases tags.len(),
{
    if tags.len() == 0 {
        Seq::empty()
    } else {
        "\n        <dc:subject>"@ + tags[0]@ + "</dc:subject>"@ + spec_subjects(tags.skip(1))
    }
}

/// The cover page the guide points at: the resolved novel cover, or the
/// default cover location when none was resolved.
pub open spec fn spec_guide_href(novel: NovelInfo) -> Seq<char> {
    match novel.cover_image_path {
        Some(p) => p@,
        None => "images/cover.jpg"@,
    }
}

/// The whole package manifest document: metadata block (identifier derived
/// from the novel's numeric id, title, fixed language code, creator,
/// optional contributor, one subject per tag, description only for a
/// non-empty summary, generator marker and the given generation date),
/// manifest block, spine block and guide block.
pub open spec fn spec_content_opf(
    novel: NovelInfo,
    novel_id: u32,
    date: Seq<char>,
    manifest: Seq<EntryView>,
    spine: Seq<IdView>,
) -> Seq<char> {
    "<?xml version=\"1.0\" encoding=\"UTF-8\"?>\n<package version=\"2.0\" xmlns=\"http://www.idpf.org/2007/opf\" unique-identifier=\"BookId\">\n    <metadata xmlns:dc=\"http://purl.org/dc/elements/1.1/\" xmlns:opf=\"http://www.idpf.org/2007/opf\">\n        <dc:identifier id=\"BookId\">docln:"@
        + spec_dec(novel_id as nat) + "</dc:identifier>\n        <dc:title>"@ + novel.title@
        + "</dc:title>\n        <dc:language>vi</dc:language>\n        <dc:creator opf:role=\"aut\">"@
        + novel.author@ + "</dc:creator>"@ + (match novel.illustrator {
        Some(ill) => "\n        <dc:contributor opf:role=\"ill\">"@ + ill@ + "</dc:contributor>"@,
        None => Seq::empty(),
    }) + spec_subjects(novel.tags@) + (if novel.summary@.len() > 0 {
        "\n        <dc:description>"@ + novel.summary@ + "</dc:description>"@
    } else {
        Seq::empty()
    }) + "\n        <dc:publisher>docln-fetch</dc:publisher>\n        <dc:date>"@ + date
        + "</dc:date>\n        <meta name=\"generator\" content=\"docln-fetch\"/>\n    </metadata>\n    <manifest>"@
        + spec_opf_items(manifest) + "\n    </manifest>\n    <spine toc=\"ncx\">"@
        + spec_spine_refs(spine)
        + "\n    </spine>\n    <guide>\n        <reference type=\"cover\" title=\"Cover\" href=\""@
        + spec_guide_href(novel) + "\"/>\n    </guide>\n</package>"@
}

fn render_opf_items(manifest: &Vec<ManifestEntry>) -> (r: String)
    ensures
        r@ == spec_opf_items(manifest@.map(|_i: int, e: ManifestEntry| e@)),
{
    let ghost full = manifest@.map(|_i: int, e: ManifestEntry| e@);
    let mut r = String::new();
    let mut i: usize = 0;
    proof {
        assert(full.skip(0) =~= full);
        assert(r@ + spec_opf_items(full) =~= spec_opf_items(full));
    }
    while i < manifest.len()
        invariant
            i <= manifest@.len(),
            full == manifest@.map(|_i: int, e: ManifestEntry| e@),
            spec_opf_items(full) == r@ + spec_opf_items(full.skip(i as int)),
        decreases manifest@.len() - i,
    {
        proof {
            assert(full.skip(i as int)[0] == full[i as int]);
            assert(full.skip(i as int).skip(1) =~= full.skip(i + 1));
        }
        let e = &manifest[i];
        r.append("\n        <item id=\"");
        let id = render_entry_id(&e.id);
        r.append(id.as_str());
        r.append("\" href=\"");
        r.append(e.href.as_str());
        r.append("\" media-type=\"");
        r.append(render_media(e.media_type));
        r.append("\"/>");
        proof {
            assert(spec_opf_items(full) =~= r@ + spec_opf_items(full.skip(i + 1)));
        }
        i += 1;
    }
    proof {
        assert(full.skip(manifest@.len() as int) =~= Seq::<EntryView>::empty());
        assert(r@ =~= spec_opf_items(full));
    }
    r
}

fn render_spine_refs(spine: &Vec<EntryId>) -> (r: String)
    ensures
        r@ == spec_spine_refs(spine@.map(|_i: int, id: EntryId| id@)),
{
    let ghost full = spine@.map(|_i: int, id: EntryId| id@);
    let mut r = String::new();
    let mut i: usize = 0;
    proof {
        assert(full.skip(0) =~= full);
        assert(r@ + spec_spine_refs(full) =~= spec_spine_refs(full));
    }
    while i < spine.len()
        invariant
            i <= spine@.len(),
            full == spine@.map(|_i: int, id: EntryId| id@),
            spec_spine_refs(full) == r@ + spec_spine_refs(full.skip(i as int)),
        decreases spine@.len() - i,
    {
        proof {
            assert(full.skip(i as int)[0] == full[i as int]);
            assert(full.skip(i as int).skip(1) =~= full.skip(i + 1));
        }
        r.append("\n        <itemref idref=\"");
        let id = render_entry_id(&spine[i]);
        r.append(id.as_str());
        r.append("\"/>");
        proof {
            assert(spec_spine_refs(full) =~= r@ + spec_spine_refs(full.skip(i + 1)));
        }
        i += 1;
    }
    proof {
        assert(full.skip(spine@.len() as int) =~= Seq::<IdView>::empty());
        assert(r@ =~= spec_spine_refs(full));
    }
    r
}

fn render_subjects(tags: &Vec<String>) -> (r: String)
    ensures
        r@ == spec_subjects(tags@),
{
    let mut r = String::new();
    let mut i: usize = 0;
    proof {
        assert(tags@.skip(0) =~= tags@);
        assert(r@ + spec_subjects(tags@) =~= spec_subjects(tags@));
    }
    while i < tags.len()
        invariant
            i <= tags@.len(),
            spec_subjects(tags@) == r@ + spec_subjects(tags@.skip(i as int)),
        decreases tags@.len() - i,
    {
        proof {
            assert(tags@.skip(i as int)[0] == tags@[i as int]);
            assert(tags@.skip(i as int).skip(1) =~= tags@.skip(i + 1));
        }
        r.append("\n        <dc:subject>");
        r.append(tags[i].as_str());
        r.append("</dc:subject>");
        proof {
            assert(spec_subjects(tags@) =~= r@ + spec_subjects(tags@.skip(i + 1)));
        }
        i += 1;
    }
    proof {
        assert(tags@.skip(tags@.len() as int) =~= Seq::<String>::empty());
        assert(r@ =~= spec_subjects(tags@));
    }
    r
}

/// Renders the package manifest document for a novel, an already assembled
/// model, and a generation date.
#[verifier::rlimit(60)]
pub fn render_content_opf(
    novel: &NovelInfo,
    novel_id: u32,
    date: &str,
    model: &PackageModel,
) -> (r: String)
    ensures
        r@ == spec_content_opf(
            *novel,
            novel_id,
            date@,
            model.manifest@.map(|_i: int, e: ManifestEntry| e@),
            model.spine@.map(|_i: int, id: EntryId| id@),
        ),
{
    let mut r = String::new();
    r.append(
        "<?xml version=\"1.0\" encoding=\"UTF-8\"?>\n<package version=\"2.0\" xmlns=\"http://www.idpf.org/2007/opf\" unique-identifier=\"BookId\">\n    <metadata xmlns:dc=\"http://purl.org/dc/elements/1.1/\" xmlns:opf=\"http://www.idpf.org/2007/opf\">\n        <dc:identifier id=\"BookId\">docln:",
    );
    let idstr = u32_string(novel_id);
    r.append(idstr.as_str());
    r.append("</dc:identifier>\n        <dc:title>");
    r.append(novel.title.as_str());
    r.append(
        "</dc:title>\n        <dc:language>vi</dc:language>\n        <dc:creator opf:role=\"aut\">",
    );
    r.append(novel.author.as_str());
    r.append("</dc:creator>");
    match &novel.illustrator {
        Some(ill) => {
            r.append("\n        <dc:contributor opf:role=\"ill\">");
            r.append(ill.as_str());
            r.append("</dc:contributor>");
        },
        None => {},
    }
    let subjects = render_subjects(&novel.tags);
    r.append(subjects.as_str());
    if novel.summary.as_str().unicode_len() > 0 {
        r.append("\n        <dc:description>");
        r.append(novel.summary.as_str());
        r.append("</dc:description>");
    }
    r.append("\n        <dc:publisher>docln-fetch</dc:publisher>\n        <dc:date>");
    r.append(date);
    r.append(
        "</dc:date>\n        <meta name=\"generator\" content=\"docln-fetch\"/>\n    </metadata>\n    <manifest>",
    );
    let items = render_opf_items(&model.manifest);
    r.append(items.as_str());
    r.append("\n    </manifest>\n    <spine toc=\"ncx\">");
    let refs = render_spine_refs(&model.spine);
    r.append(refs.as_str());
    r.append(
        "\n    </spine>\n    <guide>\n        <reference type=\"cover\" title=\"Cover\" href=\"",
    );
    match &novel.cover_image_path {
        Some(p) => r.append(p.as_str()),
        None => r.append("images/cover.jpg"),
    }
    r.append("\"/>\n    </guide>\n</package>");
    assert(r@ =~= spec_content_opf(
        *novel,
        novel_id,
        date@,
        model.manifest@.map(|_i: int, e: ManifestEntry| e@),
        model.spine@.map(|_i: int, id: EntryId| id@),
    ));
    r
}

/// One chapter navigation point.
pub open spec fn spec_ncx_child(c: NavChildView) -> Seq<char> {
    "\n            <navPoint id=\"navPoint"@ + spec_dec(c.play_order as nat) + "\" playOrder=\""@
        + spec_dec(c.play_order as nat) + "\">\n                <navLabel>\n                    <text>"@
        + c.title + "</text>\n                </navLabel>\n                <content src=\""@
        + c.target + "\"/>\n            </navPoint>"@
}

/// The chapter navigation points of one volume, in order.
pub open spec fn spec_ncx_children(cs: Seq<NavChildView>) -> Seq<char>
    decreases cs.len(),
{
    if cs.len() == 0 {
        Seq::empty()
    } else {
        spec_ncx_child(cs[0]) + spec_ncx_children(cs.skip(1))
    }
}

/// One volume navigation point with its children.
pub open spec fn spec_ncx_node(nv: NavVolView) -> Seq<char> {
    "\n        <navPoint id=\"navPoint"@ + spec_dec(nv.play_order as nat) + "\" playOrder=\""@
        + spec_dec(nv.play_order as nat) + "\">\n            <navLabel>\n                <text>"@
        + nv.title + "</text>\n            </navLabel>\n            <content src=\""@ + nv.target
        + "\"/>"@ + spec_ncx_children(nv.children) + "\n        </navPoint>"@
}

/// The volume navigation points, in order.
pub open spec fn spec_ncx_nodes(nav: Seq<NavVolView>) -> Seq<char>
    decreases nav.len(),
{
    if nav.len() == 0 {
        Seq::empty()
    } else {
        spec_ncx_node(nav[0]) + spec_ncx_nodes(nav.skip(1))
    }
}

/// The whole navigation document.
pub open spec fn spec_toc_ncx(novel: NovelInfo, novel_id: u32, nav: Seq<NavVolView>) -> Seq<char> {
    "<?xml version=\"1.0\" encoding=\"UTF-8\"?>\n<ncx version=\"2005-1\" xmlns=\"http://www.daisy.org/z3986/2005/ncx/\">\n    <head>\n        <meta name=\"dtb:uid\" content=\"docln:"@
        + spec_dec(novel_id as nat)
        + "\"/>\n        <meta name=\"dtb:depth\" content=\"1\"/>\n        <meta name=\"dtb:totalPageCount\" content=\"0\"/>\n        <meta name=\"dtb:maxPageNumber\" content=\"0\"/>\n    </head>\n    <docTitle>\n        <text>"@
        + novel.title@ + "</text>\n    </docTitle>\n    <navMap>"@ + spec_ncx_nodes(nav)
        + "\n    </navMap>\n</ncx>"@
}

fn render_ncx_node(p: &NavPoint) -> (r: String)
    ensures
        r@ == spec_ncx_node(p@),
{
    let mut r = String::new();
    r.append("\n        <navPoint id=\"navPoint");
    let po = usize_string(p.play_order);
    r.append(po.as_str());
    r.append("\" playOrder=\"");
    r.append(po.as_str());
    r.append("\">\n            <navLabel>\n                <text>");
    r.append(p.title.as_str());
    r.append("</text>\n            </navLabel>\n            <content src=\"");
    r.append(p.target.as_str());
    r.append("\"/>");
    let ghost children = p.children@.map(|_i: int, c: NavChild| c@);
    let ghost head = r@;
    let mut j: usize = 0;
    proof {
        assert(children.skip(0) =~= children);
        assert(r@ =~= head + spec_ncx_children(children.skip(0)).take(0));
    }
    while j < p.children.len()
        invariant
            j <= p.children@.len(),
            children == p.children@.map(|_i: int, c: NavChild| c@),
            head + spec_ncx_children(children) == r@ + spec_ncx_children(children.skip(j as int)),
        decreases p.children@.len() - j,
    {
        proof {
            assert(children.skip(j as int)[0] == children[j as int]);
            assert(children.skip(j as int).skip(1) =~= children.skip(j + 1));
        }
        let c = &p.children[j];
        r.append("\n            <navPoint id=\"navPoint");
        let cpo = usize_string(c.play_order);
        r.append(cpo.as_str());
        r.append("\" playOrder=\"");
        r.append(cpo.as_str());
        r.append("\">\n                <navLabel>\n                    <text>");
        r.append(c.title.as_str());
        r.append("</text>\n                </navLabel>\n                <content src=\"");
        r.append(c.target.as_str());
        r.append("\"/>\n            </navPoint>");
        proof {
            assert(head + spec_ncx_children(children) =~= r@ + spec_ncx_children(
                children.skip(j + 1),
            ));
        }
        j += 1;
    }
    proof {
        assert(children.skip(p.children@.len() as int) =~= Seq::<NavChildView>::empty());
        assert(r@ =~= head + spec_ncx_children(children));
    }
    r.append("\n        </navPoint>");
    assert(r@ =~= spec_ncx_node(p@));
    r
}

/// Renders the navigation document for a novel and an assembled model.
pub fn render_toc_ncx(novel: &NovelInfo, novel_id: u32, model: &PackageModel) -> (r: String)
    ensures
        r@ == spec_toc_ncx(*novel, novel_id, model.nav@.map(|_i: int, p: NavPoint| p@)),
{
    let ghost nav = model.nav@.map(|_i: int, p: NavPoint| p@);
    let mut r = String::new();
    r.append(
        "<?xml version=\"1.0\" encoding=\"UTF-8\"?>\n<ncx version=\"2005-1\" xmlns=\"http://www.daisy.org/z3986/2005/ncx/\">\n    <head>\n        <meta name=\"dtb:uid\" content=\"docln:",
    );
    let idstr = u32_string(novel_id);
    r.append(idstr.as_str());
    r.append(
        "\"/>\n        <meta name=\"dtb:depth\" content=\"1\"/>\n        <meta name=\"dtb:totalPageCount\" content=\"0\"/>\n        <meta name=\"dtb:maxPageNumber\" content=\"0\"/>\n    </head>\n    <docTitle>\n        <text>",
    );
    r.append(novel.title.as_str());
    r.append("</text>\n    </docTitle>\n    <navMap>");
    let ghost head = r@;
    let mut i: usize = 0;
    proof {
        assert(nav.skip(0) =~= nav);
    }
    while i < model.nav.len()
        invariant
            i <= model.nav@.len(),
            nav == model.nav@.map(|_i: int, p: NavPoint| p@),
            head + spec_ncx_nodes(nav) == r@ + spec_ncx_nodes(nav.skip(i as int)),
        decreases model.nav@.len() - i,
    {
        proof {
            assert(nav.skip(i as int)[0] == nav[i as int]);
            assert(nav.skip(i as int).skip(1) =~= nav.skip(i + 1));
        }
        let node = render_ncx_node(&model.nav[i]);
        r.append(node.as_str());
        proof {
            assert(head + spec_ncx_nodes(nav) =~= r@ + spec_ncx_nodes(nav.skip(i + 1)));
        }
        i += 1;
    }
    proof {
        assert(nav.skip(model.nav@.len() as int) =~= Seq::<NavVolView>::empty());
        assert(r@ =~= head + spec_ncx_nodes(nav));
    }
    r.append("\n    </navMap>\n</ncx>");
    assert(r@ =~= spec_toc_ncx(*novel, novel_id, nav));
    r
}

/// Relies on chrono's `Local::now` and `DateTime::format`: the current
/// local date rendered as `%Y-%m-%d`. The value depends on the clock, so
/// nothing is promised of it; every consumer of the date takes it as an
/// argument.
#[verifier::external_body]
fn today_date_string() -> String {
    chrono::Local::now().format("%Y-%m-%d").to_string()
}

/// The four aggregate documents of a package.
#[derive(Debug)]
pub struct EpubDocs {
    pub mimetype: String,
    pub container_xml: String,
    pub content_opf: String,
    pub toc_ncx: String,
}

/// The aggregate documents are exactly those of a package assembled from
/// this novel, written with this generation date.
pub open spec fn spec_docs_for(novel: NovelInfo, novel_id: u32, date: Seq<char>, docs: EpubDocs) -> bool {
    &&& docs.mimetype@ == spec_mimetype()
    &&& docs.container_xml@ == spec_container_xml()
    &&& docs.content_opf@ == spec_content_opf(
        novel,
        novel_id,
        date,
        spec_manifest(novel),
        spec_spine(novel.volumes@, novel.volumes@.len() as int),
    )
    &&& docs.toc_ncx@ == spec_toc_ncx(novel, novel_id, spec_nav(novel.volumes@))
}

/// Serializer of the package's aggregate metadata documents.
pub struct EpubGenerator;

impl EpubGenerator {
    pub fn new() -> Self {
        Self
    }

    /// Produces the declaration file, the container pointer file, the
    /// package manifest document and the navigation document for a novel,
    /// with the given generation date.
    pub fn generate_epub_metadata_dated(
        &self,
        novel: &NovelInfo,
        novel_id: u32,
        date: &str,
    ) -> (docs: EpubDocs)
        requires
            spec_nav_counter(novel.volumes@) <= usize::MAX,
        ensures
            spec_docs_for(*novel, novel_id, date@, docs),
    {
        let model = assemble(novel);
        let mut mt = String::new();
        mt.append(mimetype_content());
        let mut cx = String::new();
        cx.append(container_xml());
        let content_opf = render_content_opf(novel, novel_id, date, &model);
        let toc_ncx = render_toc_ncx(novel, novel_id, &model);
        proof {
            assert(mt@ =~= spec_mimetype());
            assert(cx@ =~= spec_container_xml());
        }
        EpubDocs { mimetype: mt, container_xml: cx, content_opf, toc_ncx }
    }

    /// Produces the package's aggregate documents dated with the local
    /// clock's current date.
    pub fn generate_epub_metadata(&self, novel: &NovelInfo, novel_id: u32) -> (docs: EpubDocs)
        requires
            spec_nav_counter(novel.volumes@) <= usize::MAX,
        ensures
            exists|date: Seq<char>| #[trigger] spec_docs_for(*novel, novel_id, date, docs),
    {
        let date = today_date_string();
        let docs = self.generate_epub_metadata_dated(novel, novel_id, date.as_str());
        proof {
            assert(spec_docs_for(*novel, novel_id, date@, docs));
        }
        docs
    }
}

/// Structure of a rendered unit id `chapter{v}_{u}`: its single underscore
/// separates the two decimal ordinals.
proof fn lemma_render_unit_structure(v: int, u: int)
    requires
        v >= 0,
        u >= 0,
    ensures
        ({
            let s = spec_render_id(IdView::Unit(v, u));
            let dv = spec_dec(v as nat);
            let du = spec_dec(u as nat);
            let i = 7 + dv.len() as int;
            &&& s.len() == 7 + dv.len() + 1 + du.len()
            &&& s[i] == '_'
            &&& forall|k: int| 0 <= k < i ==> s[k] != '_'
            &&& forall|k: int| i < k < s.len() ==> s[k] != '_'
            &&& s.subrange(7, i) == dv
            &&& s.subrange(i + 1, s.len() as int) == du
            &&& s[0] == 'c'
            &&& s[1] == 'h'
        }),
{
    reveal_strlit("chapter");
    reveal_strlit("_");
    lemma_dec_digits(v as nat);
    lemma_dec_digits(u as nat);
    let p = "chapter"@;
    let dv = spec_dec(v as nat);
    let du = spec_dec(u as nat);
    let s = spec_render_id(IdView::Unit(v, u));
    let i = 7 + dv.len() as int;
    assert(p.len() == 7);
    assert("_"@.len() == 1);
    assert(s =~= p + dv + "_"@ + du);
    assert(s[i] == '_');
    assert forall|k: int| 0 <= k < i implies s[k] != '_' by {
        if k < 7 {
            assert(s[k] == p[k]);
        } else {
            assert(s[k] == dv[k - 7]);
            assert(spec_is_digit(dv[k - 7]));
        }
    }
    assert forall|k: int| i < k < s.len() implies s[k] != '_' by {
        assert(s[k] == du[k - i - 1]);
        assert(spec_is_digit(du[k - i - 1]));
    }
    assert(s.subrange(7, i) =~= dv);
    assert(s.subrange(i + 1, s.len() as int) =~= du);
}

/// Two unit ids render to the same string only when their ordinal pairs
/// are equal.
proof fn lemma_unit_render_injective(v1: int, u1: int, v2: int, u2: int)
    requires
        v1 >= 0,
        u1 >= 0,
        v2 >= 0,
        u2 >= 0,
        spec_render_id(IdView::Unit(v1, u1)) == spec_render_id(IdView::Unit(v2, u2)),
    ensures
        v1 == v2,
        u1 == u2,
{
    lemma_render_unit_structure(v1, u1);
    lemma_render_unit_structure(v2, u2);
    let s = spec_render_id(IdView::Unit(v1, u1));
    let i1 = 7 + spec_dec(v1 as nat).len() as int;
    let i2 = 7 + spec_dec(v2 as nat).len() as int;
    if i1 < i2 {
        assert(spec_render_id(IdView::Unit(v2, u2))[i1] != '_');
        assert(s[i1] == '_');
        assert(false);
    }
    if i2 < i1 {
        assert(s[i2] != '_');
        assert(spec_render_id(IdView::Unit(v2, u2))[i2] == '_');
        assert(false);
    }
    assert(spec_dec(v1 as nat) == s.subrange(7, i1));
    assert(spec_dec(v2 as nat) == s.subrange(7, i1));
    lemma_dec_injective(v1 as nat, v2 as nat);
    assert(spec_dec(u1 as nat) == s.subrange(i1 + 1, s.len() as int));
    assert(spec_dec(u2 as nat) == s.subrange(i1 + 1, s.len() as int));
    lemma_dec_injective(u1 as nat, u2 as nat);
}

/// No other entry id renders to a unit id's string.
proof fn lemma_nonunit_render_differs(id: IdView, v: int, u: int)
    requires
        !(id is Unit),
        v >= 0,
        u >= 0,
    ensures
        spec_render_id(id) != spec_render_id(IdView::Unit(v, u)),
{
    lemma_render_unit_structure(v, u);
    let s = spec_render_id(IdView::Unit(v, u));
    let r = spec_render_id(id);
    match id {
        IdView::Ncx => {
            reveal_strlit("ncx");
            assert(r.len() == 3);
            assert(s.len() >= 10);
        },
        IdView::CoverImage => {
            reveal_strlit("cover-image");
            assert(r[1] == 'o');
            assert(s[1] == 'h');
            if r == s {
                assert(r[1] == s[1]);
                assert(false);
            }
        },
        IdView::VolumeCover(w) => {
            reveal_strlit("volume");
            assert(r[0] == "volume"@[0]);
            assert(r[0] == 'v');
            assert(s[0] == 'c');
            if r == s {
                assert(false);
            }
        },
        IdView::Illustration(a, b, f) => {
            reveal_strlit("vol");
            assert(r[0] == "vol"@[0]);
            assert(r[0] == 'v');
            assert(s[0] == 'c');
            if r == s {
                assert(false);
            }
        },
        IdView::Unit(_, _) => {
            assert(false);
        },
    }
}

/// Number of rendered ids in `ids` equal to `id`.
pub open spec fn spec_count_rendered(ids: Seq<Seq<char>>, id: Seq<char>) -> nat {
    ids.filter(|x: Seq<char>| x == id).len()
}

proof fn lemma_count_none_rendered(s: Seq<Seq<char>>, id: Seq<char>)
    requires
        forall|k: int| 0 <= k < s.len() ==> (#[trigger] s[k]) != id,
    ensures
        spec_count_rendered(s, id) == 0,
    decreases s.len(),
{
    reveal(Seq::filter);
    if s.len() > 0 {
        assert(forall|k: int| 0 <= k < s.drop_last().len() ==> (#[trigger] s.drop_last()[k]) != id);
        lemma_count_none_rendered(s.drop_last(), id);
    }
}

proof fn lemma_count_single_rendered(s: Seq<Seq<char>>, id: Seq<char>, pos: int)
    requires
        0 <= pos < s.len(),
        s[pos] == id,
        forall|k: int| 0 <= k < s.len() && k != pos ==> (#[trigger] s[k]) != id,
    ensures
        spec_count_rendered(s, id) == 1,
    decreases s.len(),
{
    reveal(Seq::filter);
    if pos == s.len() - 1 {
        assert(forall|k: int| 0 <= k < s.drop_last().len() ==> (#[trigger] s.drop_last()[k]) != id);
        lemma_count_none_rendered(s.drop_last(), id);
    } else {
        assert(forall|k: int|
            0 <= k < s.drop_last().len() && k != pos ==> (#[trigger] s.drop_last()[k]) != id);
        lemma_count_single_rendered(s.drop_last(), id, pos);
        assert(s.last() != id);
    }
}

/// Referential integrity holds of the documents' textual ids as well:
/// every idref the spine block emits matches the id attribute of exactly
/// one manifest item — the ordinal pairs render to pairwise distinct
/// strings, and no other entry's id collides with them.
pub proof fn lemma_rendered_ids_integrity(novel: NovelInfo)
    ensures
        forall|si: int|
            0 <= si < spec_spine(novel.volumes@, novel.volumes@.len() as int).len()
                ==> spec_count_rendered(
                spec_manifest(novel).map(|_k: int, e: EntryView| spec_render_id(e.id)),
                spec_render_id(
                    #[trigger] spec_spine(novel.volumes@, novel.volumes@.len() as int)[si],
                ),
            ) == 1,
{
    let vols = novel.volumes@;
    let n = vols.len() as int;
    let sp = spec_spine(vols, n);
    let m = spec_manifest(novel);
    let base = crate::assemble::spec_manifest_base(novel);
    let covers = crate::assemble::spec_cover_entries(vols, n);
    let illus = crate::assemble::spec_illus_entries(vols, n);
    let units = crate::assemble::spec_unit_entries(vols, n);
    let pre = base + covers + illus;
    let f = |_k: int, e: EntryView| spec_render_id(e.id);
    crate::assemble::lemma_spine_shape(vols, n);
    crate::assemble::lemma_unit_entry_ids(vols, n);
    crate::assemble::lemma_cover_entries_not_unit(vols, n);
    crate::assemble::lemma_illus_entries_not_unit(vols, n);
    assert(m =~= pre + units);
    assert(m.map(f) =~= pre.map(f) + units.map(f));
    assert forall|k: int| 0 <= k < pre.len() implies !((#[trigger] pre[k]).id is Unit) by {
        if k < base.len() {
            assert(pre[k] == base[k]);
        } else if k < base.len() + covers.len() {
            assert(pre[k] == covers[k - base.len()]);
        } else {
            assert(pre[k] == illus[k - base.len() - covers.len()]);
        }
    }
    assert(units.map(f).len() == sp.len());
    assert forall|si: int| 0 <= si < sp.len() implies spec_count_rendered(
        m.map(f),
        spec_render_id(#[trigger] sp[si]),
    ) == 1 by {
        let v = crate::assemble::spec_unit_vol(sp[si]);
        let u = crate::assemble::spec_unit_ord(sp[si]);
        assert(sp[si] == IdView::Unit(v, u));
        let rid = spec_render_id(sp[si]);
        assert forall|k: int| 0 <= k < pre.len() implies (#[trigger] pre.map(f)[k]) != rid by {
            lemma_nonunit_render_differs(pre[k].id, v, u);
            assert(pre.map(f)[k] == spec_render_id(pre[k].id));
        }
        lemma_count_none_rendered(pre.map(f), rid);
        assert(units.map(f)[si] == spec_render_id(units[si].id));
        assert(units[si].id == sp[si]);
        assert forall|k: int| 0 <= k < units.map(f).len() && k != si implies (
        #[trigger] units.map(f)[k]) != rid by {
            assert(units[k].id == sp[k]);
            let vk = crate::assemble::spec_unit_vol(sp[k]);
            let uk = crate::assemble::spec_unit_ord(sp[k]);
            assert(sp[k] == IdView::Unit(vk, uk));
            if spec_render_id(sp[k]) == rid {
                lemma_unit_render_injective(vk, uk, v, u);
                assert(sp[k] == sp[si]);
                assert(false);
            }
        }
        lemma_count_single_rendered(units.map(f), rid, si);
        vstd::seq::Seq::filter_distributes_over_add(pre.map(f), units.map(f), |x: Seq<char>| x == rid);
        assert(spec_count_rendered(m.map(f), rid) == spec_count_rendered(pre.map(f), rid)
            + spec_count_rendered(units.map(f), rid));
    }
}

} // verus!
