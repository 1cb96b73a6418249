//! Content document builder: renders one chapter (or one synthetic
//! volume-cover page) into a self-contained XHTML document.
//!
//! A chapter body arrives as a sequence of paragraphs, each a sequence of
//! segments: literal text, or an inline image reference carrying its remote
//! source URL. The builder rewrites every image reference whose download
//! succeeded to its local, sequentially numbered path (a failed download
//! keeps the remote URL), and renders the result between a fixed document
//! head and tail.

use vstd::prelude::*;
use vstd::string::*;
use crate::models::{Volume, NovelInfo};
use crate::paths::{
    spec_ext_of, spec_illustration_rel, spec_illustration_doc_rel, spec_unit_rel_path,
    illustration_rel_path, illustration_doc_path, unit_rel_path,
};
use crate::textfmt::{spec_last_index_of, lemma_last_index_of, last_index_of, substring_copy};

verus! {

/// One piece of a paragraph: literal markup text, or an inline image
/// reference holding the reference's source (a remote URL before rewriting,
/// a local relative path after).
#[derive(Debug)]
pub enum Segment {
    Text(String),
    Image(String),
}

/// Mathematical shape of a segment.
pub enum SegView {
    Text(Seq<char>),
    Image(Seq<char>),
}

impl View for Segment {
    type V = SegView;

    open spec fn view(&self) -> SegView {
        match self {
            Segment::Text(t) => SegView::Text(t@),
            Segment::Image(s) => SegView::Image(s@),
        }
    }
}

/// One paragraph of a chapter body.
#[derive(Debug)]
pub struct Paragraph {
    pub segments: Vec<Segment>,
}

impl View for Paragraph {
    type V = Seq<SegView>;

    open spec fn view(&self) -> Seq<SegView> {
        self.segments@.map(|_i: int, s: Segment| s@)
    }
}

/// Views of a list of paragraphs.
pub open spec fn paras_view(ps: Seq<Paragraph>) -> Seq<Seq<SegView>> {
    ps.map(|_i: int, p: Paragraph| p@)
}

/// The downloadable source URLs of one segment: an image reference with a
/// non-empty source contributes it, everything else contributes nothing.
pub open spec fn spec_seg_src(s: SegView) -> Seq<Seq<char>> {
    match s {
        SegView::Image(src) => if src.len() > 0 {
            seq![src]
        } else {
            Seq::empty()
        },
        SegView::Text(_) => Seq::empty(),
    }
}

/// Source URLs of a segment list, in order.
pub open spec fn spec_seg_srcs(ss: Seq<SegView>) -> Seq<Seq<char>>
    decreases ss.len(),
{
    if ss.len() == 0 {
        Seq::empty()
    } else {
        spec_seg_src(ss[0]) + spec_seg_srcs(ss.skip(1))
    }
}

/// Source URLs of a whole chapter body, in document order: the list of
/// image references a downloader must attempt, one outcome per entry.
pub open spec fn spec_para_srcs(ps: Seq<Seq<SegView>>) -> Seq<Seq<char>>
    decreases ps.len(),
{
    if ps.len() == 0 {
        Seq::empty()
    } else {
        spec_seg_srcs(ps[0]) + spec_para_srcs(ps.skip(1))
    }
}

/// The image source URLs of a chapter body, in document order.
pub fn collect_image_srcs(paragraphs: &Vec<Paragraph>) -> (r: Vec<String>)
    ensures
        r@.map(|_i: int, s: String| s@) == spec_para_srcs(paras_view(paragraphs@)),
{
    let ghost full = paras_view(paragraphs@);
    let mut out: Vec<String> = Vec::new();
    let mut i: usize = 0;
    proof {
        assert(full.skip(0) =~= full);
        assert(out@.map(|_i: int, s: String| s@) =~= Seq::<Seq<char>>::empty());
        assert(spec_para_srcs(full) =~= out@.map(|_i: int, s: String| s@) + spec_para_srcs(
            full.skip(0),
        ));
    }
    while i < paragraphs.len()
        invariant
            i <= paragraphs@.len(),
            full == paras_view(paragraphs@),
            spec_para_srcs(full) == out@.map(|_i: int, s: String| s@) + spec_para_srcs(
                full.skip(i as int),
            ),
        decreases paragraphs@.len() - i,
    {
        let ghost out0 = out@;
        let p = &paragraphs[i];
        let mut j: usize = 0;
        proof {
            assert(p@.take(0) =~= Seq::<SegView>::empty());
            assert(out@.map(|_i: int, s: String| s@) =~= out0.map(|_i: int, s: String| s@)
                + spec_seg_srcs(p@.take(0)));
        }
        while j < p.segments.len()
            invariant
                j <= p.segments@.len(),
                p@ == full[i as int],
                i < full.len(),
                spec_para_srcs(full) == out0.map(|_i: int, s: String| s@) + spec_para_srcs(
                    full.skip(i as int),
                ),
                out@.map(|_i: int, s: String| s@) == out0.map(|_i: int, s: String| s@)
                    + spec_seg_srcs(p@.take(j as int)),
            decreases p.segments@.len() - j,
        {
            let ghost taken0 = p@.take(j as int);
            let ghost outprev = out@;
            match &p.segments[j] {
                Segment::Image(src) => {
                    if src.as_str().unicode_len() > 0 {
                        out.push(src.clone());
                    }
                },
                Segment::Text(_) => {},
            }
            proof {
                lemma_seg_srcs_push(taken0, p@[j as int]);
                assert(p@.take(j + 1) =~= taken0.push(p@[j as int]));
                if out@.len() > outprev.len() {
                    assert(out@.map(|_i: int, s: String| s@) =~= outprev.map(
                        |_i: int, s: String| s@,
                    ).push(out@.last()@));
                }
                assert(out@.map(|_i: int, s: String| s@) =~= out0.map(|_i: int, s: String| s@)
                    + spec_seg_srcs(p@.take(j + 1)));
            }
            j += 1;
        }
        proof {
            assert(p@.take(p.segments@.len() as int) =~= p@);
            assert(full.skip(i as int)[0] == full[i as int]);
            assert(full.skip(i as int).skip(1) =~= full.skip(i + 1));
            assert(spec_para_srcs(full) =~= out@.map(|_i: int, s: String| s@) + spec_para_srcs(
                full.skip(i + 1),
            ));
        }
        i += 1;
    }
    proof {
        assert(full.skip(paragraphs@.len() as int) =~= Seq::<Seq<SegView>>::empty());
        assert(out@.map(|_i: int, s: String| s@) =~= spec_para_srcs(full));
    }
    out
}

proof fn lemma_seg_srcs_push(ss: Seq<SegView>, s: SegView)
    ensures
        spec_seg_srcs(ss.push(s)) == spec_seg_srcs(ss) + spec_seg_src(s),
    decreases ss.len(),
{
    if ss.len() == 0 {
        reveal_with_fuel(spec_seg_srcs, 3);
        assert(ss.push(s).skip(1) =~= Seq::<SegView>::empty());
        assert(ss.push(s)[0] == s);
        assert(spec_seg_src(s) + Seq::<Seq<char>>::empty() =~= spec_seg_src(s));
        assert(spec_seg_srcs(ss.push(s)) =~= spec_seg_src(s));
        assert(spec_seg_srcs(ss) + spec_seg_src(s) =~= spec_seg_src(s));
    } else {
        assert(ss.push(s).skip(1) =~= ss.skip(1).push(s));
        assert(ss.push(s)[0] == ss[0]);
        lemma_seg_srcs_push(ss.skip(1), s);
        assert(spec_seg_srcs(ss.push(s)) =~= spec_seg_srcs(ss) + spec_seg_src(s));
    }
}

/// Rewriting step for one segment. `k` counts image references with a
/// non-empty source seen so far (the index into the download outcomes), `n`
/// counts the references that resolved so far; a resolved reference takes
/// the next number `n + 1`, a failed one keeps its remote URL and consumes
/// no number. Returns the rewritten segment, the persisted local paths it
/// contributes, and the updated counters.
pub open spec fn spec_apply_one(
    s: SegView,
    outcomes: Seq<bool>,
    k: nat,
    n: nat,
    vol_ord: nat,
    chap_ord: nat,
) -> (SegView, Seq<Seq<char>>, nat, nat) {
    match s {
        SegView::Text(_) => (s, Seq::empty(), k, n),
        SegView::Image(src) => if src.len() == 0 {
            (s, Seq::empty(), k, n)
        } else if k < outcomes.len() && outcomes[k as int] {
            (
                SegView::Image(
                    spec_illustration_doc_rel(vol_ord, chap_ord, n + 1, spec_ext_of(src)),
                ),
                seq![spec_illustration_rel(vol_ord, chap_ord, n + 1, spec_ext_of(src))],
                k + 1,
                n + 1,
            )
        } else {
            (s, Seq::empty(), k + 1, n)
        },
    }
}

/// Rewriting of a segment list, threading the counters left to right.
pub open spec fn spec_apply_segs(
    ss: Seq<SegView>,
    outcomes: Seq<bool>,
    k: nat,
    n: nat,
    vol_ord: nat,
    chap_ord: nat,
) -> (Seq<SegView>, Seq<Seq<char>>, nat, nat)
    decreases ss.len(),
{
    if ss.len() == 0 {
        (Seq::empty(), Seq::empty(), k, n)
    } else {
        let (s0, p0, k1, n1) = spec_apply_one(ss[0], outcomes, k, n, vol_ord, chap_ord);
        let (rest, prest, k2, n2) = spec_apply_segs(ss.skip(1), outcomes, k1, n1, vol_ord, chap_ord);
        (seq![s0] + rest, p0 + prest, k2, n2)
    }
}

/// Rewriting of a whole chapter body.
pub open spec fn spec_apply_paras(
    ps: Seq<Seq<SegView>>,
    outcomes: Seq<bool>,
    k: nat,
    n: nat,
    vol_ord: nat,
    chap_ord: nat,
) -> (Seq<Seq<SegView>>, Seq<Seq<char>>, nat, nat)
    decreases ps.len(),
{
    if ps.len() == 0 {
        (Seq::empty(), Seq::empty(), k, n)
    } else {
        let (ss, p0, k1, n1) = spec_apply_segs(ps[0], outcomes, k, n, vol_ord, chap_ord);
        let (rest, prest, k2, n2) = spec_apply_paras(
            ps.skip(1),
            outcomes,
            k1,
            n1,
            vol_ord,
            chap_ord,
        );
        (seq![ss] + rest, p0 + prest, k2, n2)
    }
}

/// The rewrite consumes one outcome per non-empty image source and one
/// number per successful outcome.
proof fn lemma_apply_segs_counts(
    ss: Seq<SegView>,
    outcomes: Seq<bool>,
    k: nat,
    n: nat,
    vol_ord: nat,
    chap_ord: nat,
)
    ensures
        spec_apply_segs(ss, outcomes, k, n, vol_ord, chap_ord).2 == k + spec_seg_srcs(ss).len(),
        spec_apply_segs(ss, outcomes, k, n, vol_ord, chap_ord).3 - n <= spec_apply_segs(
            ss,
            outcomes,
            k,
            n,
            vol_ord,
            chap_ord,
        ).2 - k,
        n <= spec_apply_segs(ss, outcomes, k, n, vol_ord, chap_ord).3,
    decreases ss.len(),
{
    if ss.len() > 0 {
        let (s0, p0, k1, n1) = spec_apply_one(ss[0], outcomes, k, n, vol_ord, chap_ord);
        lemma_apply_segs_counts(ss.skip(1), outcomes, k1, n1, vol_ord, chap_ord);
    }
}

proof fn lemma_apply_paras_counts(
    ps: Seq<Seq<SegView>>,
    outcomes: Seq<bool>,
    k: nat,
    n: nat,
    vol_ord: nat,
    chap_ord: nat,
)
    ensures
        spec_apply_paras(ps, outcomes, k, n, vol_ord, chap_ord).2 == k + spec_para_srcs(ps).len(),
        spec_apply_paras(ps, outcomes, k, n, vol_ord, chap_ord).3 - n <= spec_apply_paras(
            ps,
            outcomes,
            k,
            n,
            vol_ord,
            chap_ord,
        ).2 - k,
        n <= spec_apply_paras(ps, outcomes, k, n, vol_ord, chap_ord).3,
    decreases ps.len(),
{
    if ps.len() > 0 {
        let (ss, p0, k1, n1) = spec_apply_segs(ps[0], outcomes, k, n, vol_ord, chap_ord);
        lemma_apply_segs_counts(ps[0], outcomes, k, n, vol_ord, chap_ord);
        lemma_apply_paras_counts(ps.skip(1), outcomes, k1, n1, vol_ord, chap_ord);
    }
}

/// A chapter body after illustration rewriting: the paragraphs with every
/// resolved image reference pointing at its local file, and the
/// image-root-relative paths of the persisted illustrations, in order.
#[derive(Debug)]
pub struct ResolvedChapter {
    pub paragraphs: Vec<Paragraph>,
    pub illustration_paths: Vec<String>,
}

fn apply_segs_exec(
    p: &Paragraph,
    outcomes: &Vec<bool>,
    k: usize,
    n: usize,
    vol_index: usize,
    chap_index: usize,
) -> (r: (Vec<Segment>, Vec<String>, usize, usize))
    requires
        vol_index < usize::MAX,
        chap_index < usize::MAX,
        n <= k,
        spec_apply_segs(
            p@,
            outcomes@,
            k as nat,
            n as nat,
            (vol_index + 1) as nat,
            (chap_index + 1) as nat,
        ).2 <= outcomes@.len(),
    ensures
        ({
            let g = spec_apply_segs(
                p@,
                outcomes@,
                k as nat,
                n as nat,
                (vol_index + 1) as nat,
                (chap_index + 1) as nat,
            );
            &&& r.0@.map(|_i: int, s: Segment| s@) == g.0
            &&& r.1@.map(|_i: int, s: String| s@) == g.1
            &&& r.2 == g.2
            &&& r.3 == g.3
            &&& r.3 <= r.2
        }),
{
    let ghost v_ord = (vol_index + 1) as nat;
    let ghost c_ord = (chap_index + 1) as nat;
    let ghost k0 = k as nat;
    let ghost n0 = n as nat;
    let ghost g = spec_apply_segs(p@, outcomes@, k0, n0, v_ord, c_ord);
    let mut segs: Vec<Segment> = Vec::new();
    let mut paths: Vec<String> = Vec::new();
    let mut k = k;
    let mut n = n;
    let mut j: usize = 0;
    proof {
        assert(p@.skip(0) =~= p@);
        assert(segs@.map(|_i: int, s: Segment| s@) =~= Seq::<SegView>::empty());
        assert(paths@.map(|_i: int, s: String| s@) =~= Seq::<Seq<char>>::empty());
        assert(g.0 =~= segs@.map(|_i: int, s: Segment| s@) + g.0);
        assert(g.1 =~= paths@.map(|_i: int, s: String| s@) + g.1);
    }
    while j < p.segments.len()
        invariant
            j <= p.segments@.len(),
            vol_index < usize::MAX,
            chap_index < usize::MAX,
            v_ord == vol_index + 1,
            c_ord == chap_index + 1,
            g == spec_apply_segs(p@, outcomes@, k0, n0, v_ord, c_ord),
            g.2 <= outcomes@.len(),
            n <= k,
            ({
                let rem = spec_apply_segs(
                    p@.skip(j as int),
                    outcomes@,
                    k as nat,
                    n as nat,
                    v_ord,
                    c_ord,
                );
                &&& g.0 == segs@.map(|_i: int, s: Segment| s@) + rem.0
                &&& g.1 == paths@.map(|_i: int, s: String| s@) + rem.1
                &&& g.2 == rem.2
                &&& g.3 == rem.3
            }),
        decreases p.segments@.len() - j,
    {
        proof {
            assert(p@.skip(j as int)[0] == p@[j as int]);
            assert(p@.skip(j as int).skip(1) =~= p@.skip(j + 1));
            lemma_apply_segs_counts(p@.skip(j as int), outcomes@, k as nat, n as nat, v_ord, c_ord);
        }
        let ghost one = spec_apply_one(p@[j as int], outcomes@, k as nat, n as nat, v_ord, c_ord);
        let ghost segs0 = segs@;
        let ghost paths0 = paths@;
        match &p.segments[j] {
            Segment::Text(t) => {
                segs.push(Segment::Text(t.clone()));
            },
            Segment::Image(src) => {
                if src.as_str().unicode_len() == 0 {
                    segs.push(Segment::Image(src.clone()));
                } else {
                    proof {
                        lemma_apply_segs_counts(
                            p@.skip(j + 1),
                            outcomes@,
                            one.2,
                            one.3,
                            v_ord,
                            c_ord,
                        );
                    }
                    if k < outcomes.len() && outcomes[k] {
                        let doc_path = illustration_doc_path(
                            vol_index,
                            chap_index,
                            n + 1,
                            src.as_str(),
                        );
                        let rel_path = illustration_rel_path(
                            vol_index,
                            chap_index,
                            n + 1,
                            src.as_str(),
                        );
                        segs.push(Segment::Image(doc_path));
                        paths.push(rel_path);
                        k += 1;
                        n += 1;
                    } else {
                        segs.push(Segment::Image(src.clone()));
                        k += 1;
                    }
                }
            },
        }
        proof {
            assert(segs@ == segs0.push(segs@.last()));
            assert(segs@.last()@ == one.0);
            assert(segs@.map(|_i: int, s: Segment| s@) =~= segs0.map(|_i: int, s: Segment| s@)
                .push(one.0));
            if paths@.len() > paths0.len() {
                assert(paths@.map(|_i: int, s: String| s@) =~= paths0.map(|_i: int, s: String| s@)
                    .push(paths@.last()@));
            }
            assert(g.0 =~= segs@.map(|_i: int, s: Segment| s@) + spec_apply_segs(
                p@.skip(j + 1),
                outcomes@,
                k as nat,
                n as nat,
                v_ord,
                c_ord,
            ).0);
            assert(paths@.map(|_i: int, s: String| s@) =~= paths0.map(|_i: int, s: String| s@)
                + one.1);
            assert(g.1 =~= paths@.map(|_i: int, s: String| s@) + spec_apply_segs(
                p@.skip(j + 1),
                outcomes@,
                k as nat,
                n as nat,
                v_ord,
                c_ord,
            ).1);
        }
        j += 1;
    }
    proof {
        assert(p@.skip(p.segments@.len() as int) =~= Seq::<SegView>::empty());
        assert(g.0 =~= segs@.map(|_i: int, s: Segment| s@));
        assert(g.1 =~= paths@.map(|_i: int, s: String| s@));
    }
    (segs, paths, k, n)
}

/// Rewrites a chapter body against the download outcomes: the `k`-th image
/// reference with a non-empty source corresponds to `outcomes[k]`; a
/// reference whose download succeeded is rewritten to the next sequential
/// local illustration path of this (volume, chapter), and a failed one
/// keeps its remote URL and consumes no number.
pub fn apply_resolutions(
    paragraphs: &Vec<Paragraph>,
    outcomes: &Vec<bool>,
    vol_index: usize,
    chap_index: usize,
) -> (r: ResolvedChapter)
    requires
        vol_index < usize::MAX,
        chap_index < usize::MAX,
        outcomes@.len() == spec_para_srcs(paras_view(paragraphs@)).len(),
    ensures
        ({
            let applied = spec_apply_paras(
                paras_view(paragraphs@),
                outcomes@,
                0,
                0,
                (vol_index + 1) as nat,
                (chap_index + 1) as nat,
            );
            &&& paras_view(r.paragraphs@) == applied.0
            &&& r.illustration_paths@.map(|_i: int, s: String| s@) == applied.1
        }),
{
    let ghost full = paras_view(paragraphs@);
    let ghost v_ord = (vol_index + 1) as nat;
    let ghost c_ord = (chap_index + 1) as nat;
    let ghost goal = spec_apply_paras(full, outcomes@, 0, 0, v_ord, c_ord);
    let mut out_paras: Vec<Paragraph> = Vec::new();
    let mut out_paths: Vec<String> = Vec::new();
    let mut k: usize = 0;
    let mut n: usize = 0;
    let mut i: usize = 0;
    proof {
        lemma_apply_paras_counts(full, outcomes@, 0, 0, v_ord, c_ord);
        assert(full.skip(0) =~= full);
        assert(paras_view(out_paras@) =~= Seq::<Seq<SegView>>::empty());
        assert(out_paths@.map(|_i: int, s: String| s@) =~= Seq::<Seq<char>>::empty());
        assert(goal.0 =~= paras_view(out_paras@) + goal.0);
        assert(goal.1 =~= out_paths@.map(|_i: int, s: String| s@) + goal.1);
    }
    while i < paragraphs.len()
        invariant
            i <= paragraphs@.len(),
            full == paras_view(paragraphs@),
            outcomes@.len() == spec_para_srcs(full).len(),
            goal == spec_apply_paras(full, outcomes@, 0, 0, v_ord, c_ord),
            vol_index < usize::MAX,
            chap_index < usize::MAX,
            v_ord == vol_index + 1,
            c_ord == chap_index + 1,
            goal.2 == outcomes@.len(),
            n <= k,
            ({
                let rem = spec_apply_paras(
                    full.skip(i as int),
                    outcomes@,
                    k as nat,
                    n as nat,
                    v_ord,
                    c_ord,
                );
                &&& goal.0 == paras_view(out_paras@) + rem.0
                &&& goal.1 == out_paths@.map(|_i: int, s: String| s@) + rem.1
                &&& goal.2 == rem.2
                &&& goal.3 == rem.3
            }),
        decreases paragraphs@.len() - i,
    {
        proof {
            assert(full.skip(i as int)[0] == full[i as int]);
            assert(full.skip(i as int).skip(1) =~= full.skip(i + 1));
            lemma_apply_segs_counts(full[i as int], outcomes@, k as nat, n as nat, v_ord, c_ord);
            lemma_apply_paras_counts(
                full.skip(i + 1),
                outcomes@,
                spec_apply_segs(full[i as int], outcomes@, k as nat, n as nat, v_ord, c_ord).2,
                spec_apply_segs(full[i as int], outcomes@, k as nat, n as nat, v_ord, c_ord).3,
                v_ord,
                c_ord,
            );
        }
        let p = &paragraphs[i];
        proof {
            assert(p@ == full[i as int]);
        }
        let (segs, mut paths, k2, n2) = apply_segs_exec(p, outcomes, k, n, vol_index, chap_index);
        let ghost out_paras0 = out_paras@;
        let ghost out_paths0 = out_paths@;
        let new_para = Paragraph { segments: segs };
        let ghost npv = new_para@;
        out_paras.push(new_para);
        out_paths.append(&mut paths);
        k = k2;
        n = n2;
        proof {
            assert(paras_view(out_paras@) =~= paras_view(out_paras0).push(npv));
            assert(goal.0 =~= paras_view(out_paras@) + spec_apply_paras(
                full.skip(i + 1),
                outcomes@,
                k as nat,
                n as nat,
                v_ord,
                c_ord,
            ).0);
            assert(goal.1 =~= out_paths@.map(|_i: int, s: String| s@) + spec_apply_paras(
                full.skip(i + 1),
                outcomes@,
                k as nat,
                n as nat,
                v_ord,
                c_ord,
            ).1);
        }
        i += 1;
    }
    proof {
        assert(full.skip(paragraphs@.len() as int) =~= Seq::<Seq<SegView>>::empty());
        assert(goal.0 =~= paras_view(out_paras@));
        assert(goal.1 =~= out_paths@.map(|_i: int, s: String| s@));
    }
    ResolvedChapter { paragraphs: out_paras, illustration_paths: out_paths }
}

/// Rendering of one segment into document markup: text is emitted as-is, an
/// image reference becomes a self-closing `img` element.
pub open spec fn spec_render_seg(s: SegView) -> Seq<char> {
    match s {
        SegView::Text(t) => t,
        SegView::Image(src) => "<img src=\""@ + src + "\"/>"@,
    }
}

/// Rendering of a segment list: the concatenation of its segments.
pub open spec fn spec_render_segs(ss: Seq<SegView>) -> Seq<char>
    decreases ss.len(),
{
    if ss.len() == 0 {
        Seq::empty()
    } else {
        spec_render_seg(ss[0]) + spec_render_segs(ss.skip(1))
    }
}

/// Rendering of a chapter body: its paragraphs joined by single newlines.
pub open spec fn spec_render_paras(ps: Seq<Seq<SegView>>) -> Seq<char>
    decreases ps.len(),
{
    if ps.len() == 0 {
        Seq::empty()
    } else if ps.len() == 1 {
        spec_render_segs(ps[0])
    } else {
        spec_render_segs(ps[0]) + "\n"@ + spec_render_paras(ps.skip(1))
    }
}

/// Common head of every content document: XML declaration, doctype, a
/// `title` element and an `h1`, both holding the unit's title.
pub open spec fn spec_doc_head(title: Seq<char>) -> Seq<char> {
    "<?xml version=\"1.0\" encoding=\"UTF-8\"?>\n<!DOCTYPE html PUBLIC \"-//W3C//DTD XHTML 1.1//EN\" \"http://www.w3.org/TR/xhtml11/DTD/xhtml11.dtd\">\n<html xmlns=\"http://www.w3.org/1999/xhtml\">\n<head>\n    <title>"@
        + title
        + "</title>\n    <meta http-equiv=\"Content-Type\" content=\"text/html; charset=UTF-8\"/>\n</head>\n<body>\n    <h1>"@
        + title + "</h1>\n"@
}

/// A complete chapter content document around an already rendered body.
pub open spec fn spec_chapter_doc(title: Seq<char>, body: Seq<char>) -> Seq<char> {
    spec_doc_head(title) + "    <div class=\"chapter-content\">\n"@ + body
        + "    </div>\n</body>\n</html>"@
}

fn render_segment(s: &Segment) -> (r: String)
    ensures
        r@ == spec_render_seg(s@),
{
    match s {
        Segment::Text(t) => t.clone(),
        Segment::Image(src) => {
            let mut r = String::new();
            r.append("<img src=\"");
            r.append(src.as_str());
            r.append("\"/>");
            assert(r@ =~= spec_render_seg(s@));
            r
        },
    }
}

fn render_paragraph(p: &Paragraph) -> (r: String)
    ensures
        r@ == spec_render_segs(p@),
{
    let mut r = String::new();
    let mut j: usize = 0;
    proof {
        assert(p@.skip(0) =~= p@);
        assert(r@ + spec_render_segs(p@) =~= spec_render_segs(p@));
    }
    while j < p.segments.len()
        invariant
            j <= p.segments@.len(),
            spec_render_segs(p@) == r@ + spec_render_segs(p@.skip(j as int)),
        decreases p.segments@.len() - j,
    {
        proof {
            assert(p@.skip(j as int)[0] == p@[j as int]);
            assert(p@.skip(j as int).skip(1) =~= p@.skip(j + 1));
        }
        let piece = render_segment(&p.segments[j]);
        r.append(piece.as_str());
        proof {
            assert(spec_render_segs(p@) =~= r@ + spec_render_segs(p@.skip(j + 1)));
        }
        j += 1;
    }
    proof {
        assert(p@.skip(p.segments@.len() as int) =~= Seq::<SegView>::empty());
        assert(r@ =~= spec_render_segs(p@));
    }
    r
}

/// Renders a chapter body: the paragraphs, joined by newlines.
pub fn render_paragraphs(paragraphs: &Vec<Paragraph>) -> (r: String)
    ensures
        r@ == spec_render_paras(paras_view(paragraphs@)),
{
    let ghost full = paras_view(paragraphs@);
    let mut r = String::new();
    if paragraphs.len() == 0 {
        assert(r@ =~= spec_render_paras(full));
        return r;
    }
    let first = render_paragraph(&paragraphs[0]);
    r.append(first.as_str());
    let mut i: usize = 1;
    proof {
        assert(full[0] == paragraphs@[0]@);
        if full.len() > 1 {
            assert(spec_render_paras(full) == spec_render_segs(full[0]) + "\n"@
                + spec_render_paras(full.skip(1)));
        }
        assert(r@ =~= spec_render_segs(full[0]));
    }
    while i < paragraphs.len()
        invariant
            1 <= i <= paragraphs@.len(),
            full == paras_view(paragraphs@),
            i < full.len() ==> spec_render_paras(full) == r@ + "\n"@ + spec_render_paras(
                full.skip(i as int),
            ),
            i == full.len() ==> spec_render_paras(full) == r@,
        decreases paragraphs@.len() - i,
    {
        proof {
            assert(full.skip(i as int)[0] == full[i as int]);
            assert(full.skip(i as int).skip(1) =~= full.skip(i + 1));
        }
        r.append("\n");
        let piece = render_paragraph(&paragraphs[i]);
        r.append(piece.as_str());
        proof {
            if i + 1 < full.len() {
                assert(spec_render_paras(full) =~= r@ + "\n"@ + spec_render_paras(
                    full.skip(i + 1),
                ));
            } else {
                assert(full.skip(i as int).len() == 1);
                assert(spec_render_paras(full) =~= r@);
            }
        }
        i += 1;
    }
    r
}

/// Renders one chapter's full content document around its (already
/// rewritten) body paragraphs.
pub fn render_chapter_doc(title: &str, paragraphs: &Vec<Paragraph>) -> (r: String)
    ensures
        r@ == spec_chapter_doc(title@, spec_render_paras(paras_view(paragraphs@))),
{
    let mut r = String::new();
    r.append(
        "<?xml version=\"1.0\" encoding=\"UTF-8\"?>\n<!DOCTYPE html PUBLIC \"-//W3C//DTD XHTML 1.1//EN\" \"http://www.w3.org/TR/xhtml11/DTD/xhtml11.dtd\">\n<html xmlns=\"http://www.w3.org/1999/xhtml\">\n<head>\n    <title>",
    );
    r.append(title);
    r.append(
        "</title>\n    <meta http-equiv=\"Content-Type\" content=\"text/html; charset=UTF-8\"/>\n</head>\n<body>\n    <h1>",
    );
    r.append(title);
    r.append("</h1>\n");
    r.append("    <div class=\"chapter-content\">\n");
    let body = render_paragraphs(paragraphs);
    r.append(body.as_str());
    r.append("    </div>\n</body>\n</html>");
    assert(r@ =~= spec_chapter_doc(title@, spec_render_paras(paras_view(paragraphs@))));
    r
}

/// Name of the file a path points at: everything after the last `/` (the
/// whole path when it has no `/`).
pub open spec fn spec_filename_of(p: Seq<char>) -> Seq<char> {
    p.subrange(spec_last_index_of(p, '/') + 1, p.len() as int)
}

/// File name component of a relative path.
pub fn filename_of(p: &str) -> (r: String)
    ensures
        r@ == spec_filename_of(p@),
{
    let len = p.unicode_len();
    proof {
        lemma_last_index_of(p@, '/');
    }
    match last_index_of(p, '/') {
        Some(i) => substring_copy(p, i + 1, len),
        None => substring_copy(p, 0, len),
    }
}

/// The synthetic volume-cover document: the common head, a `volume-cover`
/// wrapper, and — when the volume has a resolved cover — one image element
/// pointing two directory levels up at the cover file under the image root.
pub open spec fn spec_volume_cover_doc(title: Seq<char>, cover: Option<Seq<char>>) -> Seq<char> {
    spec_doc_head(title) + "    <div class=\"volume-cover\">\n"@ + (match cover {
        Some(p) => "\n        <img src=\"../../images/"@ + spec_filename_of(p) + "\" alt=\""@
            + title + "\" style=\"max-width: 100%; height: auto;\"/>"@,
        None => Seq::empty(),
    }) + "\n    </div>\n</body>\n</html>"@
}

/// One synthetic volume-cover unit: the package-relative path of its
/// document and the document itself.
#[derive(Debug)]
pub struct VolumeCoverDoc {
    pub path: String,
    pub content: String,
}

/// The volume-cover documents owed to a novel's first `n` volumes: one per
/// volume with a resolved cover, in volume order, each at the reserved
/// unit 0 of its volume.
pub open spec fn spec_cover_docs(vols: Seq<Volume>, n: int) -> Seq<(Seq<char>, Seq<char>)>
    decreases n,
{
    if n <= 0 {
        Seq::empty()
    } else {
        let pre = spec_cover_docs(vols, n - 1);
        match vols[n - 1].cover_image_path {
            Some(p) => pre.push(
                (spec_unit_rel_path(n as nat, 0), spec_volume_cover_doc(vols[n - 1].title@, Some(p@))),
            ),
            None => pre,
        }
    }
}

/// Builder of the synthetic volume-cover content documents.
pub struct ChapterGenerator;

impl ChapterGenerator {
    pub fn new() -> Self {
        Self
    }

    /// Renders the volume-cover document of the volume at `volume_index`,
    /// addressed as unit 0 of that volume.
    pub fn generate_volume_cover_chapter(&self, volume: &Volume, volume_index: usize) -> (r:
        VolumeCoverDoc)
        requires
            volume_index < usize::MAX,
        ensures
            r.path@ == spec_unit_rel_path((volume_index + 1) as nat, 0),
            r.content@ == spec_volume_cover_doc(
                volume.title@,
                match volume.cover_image_path {
                    Some(p) => Some(p@),
                    None => None,
                },
            ),
    {
        let path = unit_rel_path(volume_index, 0);
        let mut c = String::new();
        c.append(
            "<?xml version=\"1.0\" encoding=\"UTF-8\"?>\n<!DOCTYPE html PUBLIC \"-//W3C//DTD XHTML 1.1//EN\" \"http://www.w3.org/TR/xhtml11/DTD/xhtml11.dtd\">\n<html xmlns=\"http://www.w3.org/1999/xhtml\">\n<head>\n    <title>",
        );
        c.append(volume.title.as_str());
        c.append(
            "</title>\n    <meta http-equiv=\"Content-Type\" content=\"text/html; charset=UTF-8\"/>\n</head>\n<body>\n    <h1>",
        );
        c.append(volume.title.as_str());
        c.append("</h1>\n");
        c.append("    <div class=\"volume-cover\">\n");
        match &volume.cover_image_path {
            Some(cover_path) => {
                c.append("\n        <img src=\"../../images/");
                let fname = filename_of(cover_path.as_str());
                c.append(fname.as_str());
                c.append("\" alt=\"");
                c.append(volume.title.as_str());
                c.append("\" style=\"max-width: 100%; height: auto;\"/>");
            },
            None => {},
        }
        c.append("\n    </div>\n</body>\n</html>");
        assert(c@ =~= spec_volume_cover_doc(
            volume.title@,
            match volume.cover_image_path {
                Some(p) => Some(p@),
                None => None,
            },
        ));
        VolumeCoverDoc { path, content: c }
    }

    /// Renders the volume-cover documents of every volume that has a
    /// resolved cover, in volume order.
    pub fn generate_all_volume_cover_chapters(&self, novel: &NovelInfo) -> (r: Vec<VolumeCoverDoc>)
        ensures
            r@.map(|_i: int, d: VolumeCoverDoc| (d.path@, d.content@)) == spec_cover_docs(
                novel.volumes@,
                novel.volumes@.len() as int,
            ),
    {
        let mut out: Vec<VolumeCoverDoc> = Vec::new();
        let mut i: usize = 0;
        proof {
            assert(out@.map(|_i: int, d: VolumeCoverDoc| (d.path@, d.content@))
                =~= spec_cover_docs(novel.volumes@, 0));
        }
        while i < novel.volumes.len()
            invariant
                i <= novel.volumes@.len(),
                out@.map(|_i: int, d: VolumeCoverDoc| (d.path@, d.content@)) == spec_cover_docs(
                    novel.volumes@,
                    i as int,
                ),
            decreases novel.volumes@.len() - i,
        {
            let ghost out0 = out@;
            let v = &novel.volumes[i];
            if v.cover_image_path.is_some() {
                let doc = self.generate_volume_cover_chapter(v, i);
                out.push(doc);
                proof {
                    assert(out@.map(|_i: int, d: VolumeCoverDoc| (d.path@, d.content@))
                        =~= out0.map(|_i: int, d: VolumeCoverDoc| (d.path@, d.content@)).push(
                        (out@.last().path@, out@.last().content@),
                    ));
                }
            }
            i += 1;
        }
        out
    }
}

/// When a chapter is flagged as having illustrations but its body holds no
/// actual image reference, the rewrite leaves the body untouched and
/// persists nothing: the rendered document equals the one of the
/// no-illustrations path, and no illustration directory is owed.
pub proof fn lemma_flagged_chapter_without_images(
    ps: Seq<Seq<SegView>>,
    outcomes: Seq<bool>,
    k: nat,
    n: nat,
    vol_ord: nat,
    chap_ord: nat,
    title: Seq<char>,
)
    requires
        spec_para_srcs(ps).len() == 0,
    ensures
        spec_apply_paras(ps, outcomes, k, n, vol_ord, chap_ord).0 == ps,
        spec_apply_paras(ps, outcomes, k, n, vol_ord, chap_ord).1 == Seq::<Seq<char>>::empty(),
        spec_chapter_doc(
            title,
            spec_render_paras(spec_apply_paras(ps, outcomes, k, n, vol_ord, chap_ord).0),
        ) == spec_chapter_doc(title, spec_render_paras(ps)),
    decreases ps.len(),
{
    if ps.len() > 0 {
        lemma_segs_without_images(ps[0], outcomes, k, n, vol_ord, chap_ord);
        let (ss, p0, k1, n1) = spec_apply_segs(ps[0], outcomes, k, n, vol_ord, chap_ord);
        lemma_flagged_chapter_without_images(ps.skip(1), outcomes, k1, n1, vol_ord, chap_ord, title);
        assert(seq![ss] + ps.skip(1) =~= ps);
        assert(spec_apply_paras(ps, outcomes, k, n, vol_ord, chap_ord).1
            =~= Seq::<Seq<char>>::empty());
    } else {
        assert(spec_apply_paras(ps, outcomes, k, n, vol_ord, chap_ord).0 =~= ps);
    }
}

proof fn lemma_segs_without_images(
    ss: Seq<SegView>,
    outcomes: Seq<bool>,
    k: nat,
    n: nat,
    vol_ord: nat,
    chap_ord: nat,
)
    requires
        spec_seg_srcs(ss).len() == 0,
    ensures
        spec_apply_segs(ss, outcomes, k, n, vol_ord, chap_ord) == (
            ss,
            Seq::<Seq<char>>::empty(),
            k,
            n,
        ),
    decreases ss.len(),
{
    if ss.len() > 0 {
        assert(spec_seg_src(ss[0]).len() == 0);
        lemma_segs_without_images(ss.skip(1), outcomes, k, n, vol_ord, chap_ord);
        assert(seq![ss[0]] + ss.skip(1) =~= ss);
        assert(spec_apply_segs(ss, outcomes, k, n, vol_ord, chap_ord).1
            =~= Seq::<Seq<char>>::empty());
    }
}

} // verus!
