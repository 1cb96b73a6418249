//! Asset resolver: deterministic derivation of the local, package-relative
//! path of every downloaded asset — the novel cover, volume covers, inline
//! chapter illustrations and chapter content documents — and of the final
//! archive's file name.
//!
//! Volume and chapter positions are given as 0-based indices (as they come
//! out of iteration over the scraped hierarchy); the derived directory and
//! file names carry the corresponding 1-based ordinal, zero-padded to three
//! digits.

use vstd::prelude::*;
use vstd::string::*;
use crate::textfmt::{
    spec_contains, str_contains, spec_last_index_of, lemma_last_index_of, last_index_of,
    substring_copy, spec_pad3, pad3_string, push_char, spec_starts_with, str_starts_with,
};

verus! {

/// Whether `c` is alphanumeric in the Unicode sense; named result of
/// std's `char::is_alphanumeric`, which is a pure function of `c`.
pub uninterp spec fn is_unicode_alphanumeric(c: char) -> bool;

/// Relies on std's `char::is_alphanumeric`: true exactly for characters in
/// the Unicode Alphabetic derived property or the Nd/Nl/No categories, a
/// function of the character alone.
pub assume_specification[ char::is_alphanumeric ](c: char) -> (r: bool)
    ensures
        r == is_unicode_alphanumeric(c),
;

/// The URL of a cover image that stands for "no cover available".
pub open spec fn spec_is_placeholder(url: Seq<char>) -> bool {
    spec_contains(url, "nocover"@)
}

/// Whether a remote cover URL is the site's "no cover" placeholder, which is
/// never downloaded.
pub fn is_placeholder_cover(url: &str) -> (r: bool)
    ensures
        r == spec_is_placeholder(url@),
{
    str_contains(url, "nocover")
}

/// File extension derived from a URL's path suffix: the characters after the
/// last `.` of the last path segment, provided that suffix is non-empty and
/// the `.` is not the segment's first character; otherwise the fixed default
/// `jpg`.
pub open spec fn spec_ext_of(url: Seq<char>) -> Seq<char> {
    let sl = spec_last_index_of(url, '/');
    let d = spec_last_index_of(url, '.');
    if d > sl + 1 && d + 1 < url.len() {
        url.subrange(d + 1, url.len() as int)
    } else {
        "jpg"@
    }
}

/// Extension of the file a URL points at, with the default applied.
pub fn ext_of_url(url: &str) -> (r: String)
    ensures
        r@ == spec_ext_of(url@),
{
    let len = url.unicode_len();
    proof {
        lemma_last_index_of(url@, '/');
        lemma_last_index_of(url@, '.');
    }
    let sl = last_index_of(url, '/');
    let d = last_index_of(url, '.');
    let dot_ok = match (d, sl) {
        (Some(di), Some(si)) => di > si + 1 && di + 1 < len,
        (Some(di), None) => di > 0 && di + 1 < len,
        (None, _) => false,
    };
    if dot_ok {
        let di = match d {
            Some(di) => di,
            None => 0,
        };
        substring_copy(url, di + 1, len)
    } else {
        let mut s = String::new();
        s.append("jpg");
        assert(s@ =~= "jpg"@);
        s
    }
}

/// Title of a volume made safe for use as a file name: every character that
/// is not Unicode-alphanumeric (spaces included) becomes `_`.
pub open spec fn spec_sanitize_char(c: char) -> char {
    if c == ' ' {
        '_'
    } else if is_unicode_alphanumeric(c) {
        c
    } else {
        '_'
    }
}

/// Character-wise sanitization of a volume title.
pub open spec fn spec_sanitize(s: Seq<char>) -> Seq<char> {
    s.map(|_i: int, c: char| spec_sanitize_char(c))
}

/// File-name-safe copy of a volume title.
pub fn sanitize_title(title: &str) -> (r: String)
    ensures
        r@ == spec_sanitize(title@),
{
    let len = title.unicode_len();
    let mut out = String::new();
    let mut i: usize = 0;
    while i < len
        invariant
            len == title@.len(),
            i <= len,
            out@.len() == i,
            forall|k: int| 0 <= k < i ==> out@[k] == spec_sanitize_char(title@[k]),
        decreases len - i,
    {
        let c = title.get_char(i);
        if c == ' ' {
            push_char(&mut out, '_');
        } else if c.is_alphanumeric() {
            push_char(&mut out, c);
        } else {
            push_char(&mut out, '_');
        }
        i += 1;
    }
    assert(out@ =~= spec_sanitize(title@));
    out
}

/// Directory name of a volume's assets, e.g. `volume_002` for `vol_ord == 2`.
pub open spec fn spec_volume_dirname(vol_ord: nat) -> Seq<char> {
    "volume_"@ + spec_pad3(vol_ord)
}

/// Directory name of a chapter's illustrations, e.g. `chapter_004`.
pub open spec fn spec_chapter_dirname(chap_ord: nat) -> Seq<char> {
    "chapter_"@ + spec_pad3(chap_ord)
}

/// File name of a unit's content document, e.g. `chapter_003.xhtml`;
/// ordinal 0 is the reserved synthetic volume-cover document.
pub open spec fn spec_unit_filename(unit_ord: nat) -> Seq<char> {
    "chapter_"@ + spec_pad3(unit_ord) + ".xhtml"@
}

/// Package-relative path of a unit's content document, e.g.
/// `text/volume_001/chapter_003.xhtml`.
pub open spec fn spec_unit_rel_path(vol_ord: nat, unit_ord: nat) -> Seq<char> {
    "text/"@ + spec_volume_dirname(vol_ord) + "/"@ + spec_unit_filename(unit_ord)
}

/// Image-root-relative path of the `n`-th persisted illustration of a
/// chapter, e.g. `volume_001/chapter_002/003.jpg`.
pub open spec fn spec_illustration_rel(vol_ord: nat, chap_ord: nat, n: nat, ext: Seq<char>) -> Seq<
    char,
> {
    spec_volume_dirname(vol_ord) + "/"@ + spec_chapter_dirname(chap_ord) + "/"@ + spec_pad3(n)
        + "."@ + ext
}

/// The same illustration as referenced from a content document, which lives
/// two directory levels below the image root.
pub open spec fn spec_illustration_doc_rel(
    vol_ord: nat,
    chap_ord: nat,
    n: nat,
    ext: Seq<char>,
) -> Seq<char> {
    "../../images/"@ + spec_illustration_rel(vol_ord, chap_ord, n, ext)
}

/// Image-root-relative path of the novel cover, e.g. `cover.jpg`, prefixed
/// with the image root as consumers store it: `images/cover.jpg`.
pub open spec fn spec_novel_cover_rel(ext: Seq<char>) -> Seq<char> {
    "images/cover."@ + ext
}

/// Path of a volume cover under the image root, named after the sanitized
/// volume title: `images/<sanitized>.<ext>`.
pub open spec fn spec_volume_cover_rel(title: Seq<char>, ext: Seq<char>) -> Seq<char> {
    "images/"@ + spec_sanitize(title) + "."@ + ext
}

/// Directory name of a volume's assets; takes the 0-based volume index.
pub fn volume_dirname(vol_index: usize) -> (r: String)
    requires
        vol_index < usize::MAX,
    ensures
        r@ == spec_volume_dirname((vol_index + 1) as nat),
{
    let mut s = String::new();
    s.append("volume_");
    let p = pad3_string(vol_index + 1);
    s.append(p.as_str());
    assert(s@ =~= spec_volume_dirname((vol_index + 1) as nat));
    s
}

/// Directory name of a chapter's illustrations; takes the 0-based chapter
/// index.
pub fn chapter_dirname(chap_index: usize) -> (r: String)
    requires
        chap_index < usize::MAX,
    ensures
        r@ == spec_chapter_dirname((chap_index + 1) as nat),
{
    let mut s = String::new();
    s.append("chapter_");
    let p = pad3_string(chap_index + 1);
    s.append(p.as_str());
    assert(s@ =~= spec_chapter_dirname((chap_index + 1) as nat));
    s
}

/// Package-relative path of a unit's content document; `unit_ord` is the
/// 1-based chapter ordinal, or 0 for the synthetic volume-cover unit.
pub fn unit_rel_path(vol_index: usize, unit_ord: usize) -> (r: String)
    requires
        vol_index < usize::MAX,
    ensures
        r@ == spec_unit_rel_path((vol_index + 1) as nat, unit_ord as nat),
{
    let mut s = String::new();
    s.append("text/");
    let vd = volume_dirname(vol_index);
    s.append(vd.as_str());
    s.append("/");
    s.append("chapter_");
    let p = pad3_string(unit_ord);
    s.append(p.as_str());
    s.append(".xhtml");
    assert(s@ =~= spec_unit_rel_path((vol_index + 1) as nat, unit_ord as nat));
    s
}

/// Image-root-relative path of the `n`-th persisted illustration of a
/// chapter; indices are 0-based, `n` is the 1-based illustration number, and
/// the extension is taken from the remote URL.
pub fn illustration_rel_path(vol_index: usize, chap_index: usize, n: usize, url: &str) -> (r:
    String)
    requires
        vol_index < usize::MAX,
        chap_index < usize::MAX,
    ensures
        r@ == spec_illustration_rel(
            (vol_index + 1) as nat,
            (chap_index + 1) as nat,
            n as nat,
            spec_ext_of(url@),
        ),
{
    let mut s = volume_dirname(vol_index);
    s.append("/");
    let cd = chapter_dirname(chap_index);
    s.append(cd.as_str());
    s.append("/");
    let p = pad3_string(n);
    s.append(p.as_str());
    s.append(".");
    let e = ext_of_url(url);
    s.append(e.as_str());
    assert(s@ =~= spec_illustration_rel(
        (vol_index + 1) as nat,
        (chap_index + 1) as nat,
        n as nat,
        spec_ext_of(url@),
    ));
    s
}

/// The same illustration as referenced from inside a content document.
pub fn illustration_doc_path(vol_index: usize, chap_index: usize, n: usize, url: &str) -> (r:
    String)
    requires
        vol_index < usize::MAX,
        chap_index < usize::MAX,
    ensures
        r@ == spec_illustration_doc_rel(
            (vol_index + 1) as nat,
            (chap_index + 1) as nat,
            n as nat,
            spec_ext_of(url@),
        ),
{
    let mut s = String::new();
    s.append("../../images/");
    let rel = illustration_rel_path(vol_index, chap_index, n, url);
    s.append(rel.as_str());
    assert(s@ =~= spec_illustration_doc_rel(
        (vol_index + 1) as nat,
        (chap_index + 1) as nat,
        n as nat,
        spec_ext_of(url@),
    ));
    s
}

/// Local path for the novel cover found at `url`: `None` for the site's
/// "no cover" placeholder, otherwise `images/cover.<ext>`.
pub fn novel_cover_rel_path(url: &str) -> (r: Option<String>)
    ensures
        spec_is_placeholder(url@) <==> r is None,
        r matches Some(p) ==> p@ == spec_novel_cover_rel(spec_ext_of(url@)),
{
    if is_placeholder_cover(url) {
        return None;
    }
    let mut s = String::new();
    s.append("images/cover.");
    let e = ext_of_url(url);
    s.append(e.as_str());
    assert(s@ =~= spec_novel_cover_rel(spec_ext_of(url@)));
    Some(s)
}

/// Local path for the cover of the volume titled `title`, found at `url`:
/// `None` for the "no cover" placeholder, otherwise
/// `images/<sanitized title>.<ext>`.
pub fn volume_cover_rel_path(url: &str, title: &str) -> (r: Option<String>)
    ensures
        spec_is_placeholder(url@) <==> r is None,
        r matches Some(p) ==> p@ == spec_volume_cover_rel(title@, spec_ext_of(url@)),
{
    if is_placeholder_cover(url) {
        return None;
    }
    let mut s = String::new();
    s.append("images/");
    let t = sanitize_title(title);
    s.append(t.as_str());
    s.append(".");
    let e = ext_of_url(url);
    s.append(e.as_str());
    assert(s@ =~= spec_volume_cover_rel(title@, spec_ext_of(url@)));
    Some(s)
}

/// Name of the final archive, derived from the working directory's name:
/// a leading `epub_` is replaced by the product prefix `docln_`, and the
/// package extension is appended.
pub open spec fn spec_epub_filename(dir: Seq<char>) -> Seq<char> {
    if spec_starts_with(dir, "epub_"@) {
        "docln_"@ + dir.subrange(5, dir.len() as int) + ".epub"@
    } else {
        "docln_"@ + dir + ".epub"@
    }
}

/// Archive file name for a working directory name, e.g. `epub_77` becomes
/// `docln_77.epub`.
pub fn epub_filename(dir_name: &str) -> (r: String)
    ensures
        r@ == spec_epub_filename(dir_name@),
{
    let mut s = String::new();
    s.append("docln_");
    let len = dir_name.unicode_len();
    if str_starts_with(dir_name, "epub_") {
        proof {
            reveal_strlit("epub_");
        }
        let rest = substring_copy(dir_name, 5, len);
        s.append(rest.as_str());
    } else {
        s.append(dir_name);
    }
    s.append(".epub");
    assert(s@ =~= spec_epub_filename(dir_name@));
    s
}

/// Absolute URL of a chapter: a site-relative link (leading `/`) is joined
/// to the base URL, any other link is kept as it stands.
pub open spec fn spec_full_url(base: Seq<char>, url: Seq<char>) -> Seq<char> {
    if spec_starts_with(url, "/"@) {
        base + url
    } else {
        url
    }
}

/// Absolute URL of a chapter link found on a listing page.
pub fn full_chapter_url(base_url: &str, url: &str) -> (r: String)
    ensures
        r@ == spec_full_url(base_url@, url@),
{
    let mut s = String::new();
    if str_starts_with(url, "/") {
        s.append(base_url);
    }
    s.append(url);
    assert(s@ =~= spec_full_url(base_url@, url@));
    s
}

/// Deriving an illustration's local path is a pure function of the volume
/// index, chapter index and sequence number (plus the URL's extension):
/// resolving two URLs with equal extensions in the same counter state yields
/// the same path, whatever the URLs are.
pub proof fn lemma_illustration_path_pure(
    vol_ord: nat,
    chap_ord: nat,
    n: nat,
    url1: Seq<char>,
    url2: Seq<char>,
)
    requires
        spec_ext_of(url1) == spec_ext_of(url2),
    ensures
        spec_illustration_rel(vol_ord, chap_ord, n, spec_ext_of(url1)) == spec_illustration_rel(
            vol_ord,
            chap_ord,
            n,
            spec_ext_of(url2),
        ),
        spec_illustration_doc_rel(vol_ord, chap_ord, n, spec_ext_of(url1))
            == spec_illustration_doc_rel(vol_ord, chap_ord, n, spec_ext_of(url2)),
{
}

} // verus!
