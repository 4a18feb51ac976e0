//! Multi-scale marker detection: score every scale variant of the marker
//! against a frame and keep the best.
//!
//! Variants are tried in ladder order; a later variant replaces the current
//! best only with a strictly greater score, so exact ties resolve to the
//! variant earliest in the ladder, and within one variant to the first
//! position in row-major order. Variants larger than the frame are skipped.

use vstd::prelude::*;

use crate::grid::Grid;
use crate::ncc::{spec_peak, best_in_window};

verus! {

/// One scaled rendering of the marker. `scale_centi` is the scale factor
/// in hundredths, so 100 is the unscaled base image.
#[derive(Clone, Debug)]
pub struct TemplateVariant {
    pub scale_centi: u32,
    pub grid: Grid,
}

impl TemplateVariant {
    /// A usable variant: a well-formed grid of at least 4x4 pixels.
    pub open spec fn wf(&self) -> bool {
        &&& self.grid.wf()
        &&& self.grid.width >= 4
        &&& self.grid.height >= 4
    }
}

/// The mathematical value of a variant: its scale and its grid's value.
pub struct TemplateVariantV {
    pub scale_centi: u32,
    pub grid: crate::grid::GridV,
}

impl View for TemplateVariant {
    type V = TemplateVariantV;

    open spec fn view(&self) -> TemplateVariantV {
        TemplateVariantV { scale_centi: self.scale_centi, grid: self.grid@ }
    }
}

/// The marker model: scaled variants in ladder order.
#[derive(Clone, Debug)]
pub struct Template {
    pub variants: Vec<TemplateVariant>,
}

impl Template {
    pub open spec fn wf(&self) -> bool {
        forall|i: int| 0 <= i < self.variants@.len() ==> #[trigger] self.variants@[i].wf()
    }
}

/// The best-scoring placement of one variant in one frame.
#[derive(Clone, Copy, PartialEq, Eq, Structural, Debug)]
pub struct Detection {
    /// Correlation score in millionths; one million is a perfect match.
    pub score_micro: i64,
    /// Frame-local column of the matched region's top-left corner.
    pub x: u32,
    /// Frame-local row of the matched region's top-left corner.
    pub y: u32,
    /// Width of the matched variant in pixels.
    pub width: u32,
    /// Height of the matched variant in pixels.
    pub height: u32,
    /// Scale of the matched variant in hundredths.
    pub scale_centi: u32,
}

/// Whether a variant of the given dimensions fits inside the frame.
pub open spec fn fits(fw: int, fh: int, tw: int, th: int) -> bool {
    tw <= fw && th <= fh
}

/// Whether a variant fits inside a frame.
pub open spec fn variant_fits(f: Grid, v: TemplateVariant) -> bool {
    fits(f.width as int, f.height as int, v.grid.width as int, v.grid.height as int)
}

/// The detection a single fitting variant yields: its response-surface peak.
pub open spec fn variant_detection(f: Grid, v: TemplateVariant) -> Detection {
    let p = spec_peak(
        f.pixels@,
        f.width as int,
        f.height as int,
        v.grid.pixels@,
        v.grid.width as int,
        v.grid.height as int,
    );
    Detection {
        score_micro: p.0 as i64,
        x: p.1 as u32,
        y: p.2 as u32,
        width: v.grid.width as u32,
        height: v.grid.height as u32,
        scale_centi: v.scale_centi,
    }
}

/// Best detection over the first `n` variants: a fold in ladder order with
/// a strict-greater replacement rule; variants that do not fit are skipped.
pub open spec fn spec_detect_upto(f: Grid, vs: Seq<TemplateVariant>, n: int) -> Option<Detection>
    decreases n,
{
    if n <= 0 {
        None
    } else {
        let prev = spec_detect_upto(f, vs, n - 1);
        if !variant_fits(f, vs[n - 1]) {
            prev
        } else {
            let d = variant_detection(f, vs[n - 1]);
            match prev {
                None => Some(d),
                Some(b) => if d.score_micro > b.score_micro {
                    Some(d)
                } else {
                    Some(b)
                },
            }
        }
    }
}

/// What `detect` returns: the best detection over all variants.
pub open spec fn spec_detect(f: Grid, t: Template) -> Option<Detection> {
    spec_detect_upto(f, t.variants@, t.variants@.len() as int)
}

/// Find the best-scoring placement of any marker variant in the frame, or
/// `None` when no variant fits. Deterministic: the result is a function of
/// the frame and the marker model alone.
#[verifier::loop_isolation(false)]
pub fn detect(frame: &Grid, template: &Template) -> (r: Option<Detection>)
    requires
        frame.wf(),
        template.wf(),
    ensures
        r == spec_detect(*frame, *template),
        r is Some ==> 0 <= r->0.score_micro <= 1_000_000,
        r is Some ==> r->0.x + r->0.width <= frame.width && r->0.y + r->0.height
            <= frame.height,
{
    let n = template.variants.len();
    let mut best: Option<Detection> = None;
    let mut idx: usize = 0;
    while idx < n
        invariant
            idx <= n,
            best == spec_detect_upto(*frame, template.variants@, idx as int),
            best is Some ==> 0 <= best->0.score_micro <= 1_000_000,
            best is Some ==> best->0.x + best->0.width <= frame.width && best->0.y
                + best->0.height <= frame.height,
        decreases n - idx,
    {
        let v = &template.variants[idx];
        proof {
            assert(template.variants@[idx as int].wf());
        }
        if v.grid.width <= frame.width && v.grid.height <= frame.height {
            let (s, x, y) = best_in_window(frame, &v.grid);
            let d = Detection {
                score_micro: s,
                x: x as u32,
                y: y as u32,
                width: v.grid.width as u32,
                height: v.grid.height as u32,
                scale_centi: v.scale_centi,
            };
            proof {
                assert(d == variant_detection(*frame, template.variants@[idx as int]));
            }
            let replace = match &best {
                None => true,
                Some(b) => s > b.score_micro,
            };
            if replace {
                best = Some(d);
            }
        }
        idx = idx + 1;
    }
    best
}

/// A detection exists exactly when some variant fits the frame: if every
/// variant's dimensions exceed the frame's, the result is `None`, and a
/// single fitting variant guarantees a result.
pub proof fn lemma_detect_some_iff_fits(f: Grid, vs: Seq<TemplateVariant>, n: int)
    requires
        0 <= n <= vs.len(),
    ensures
        spec_detect_upto(f, vs, n) is Some <==> exists|i: int|
            0 <= i < n && #[trigger] variant_fits(f, vs[i]),
    decreases n,
{
    if n > 0 {
        lemma_detect_some_iff_fits(f, vs, n - 1);
        if spec_detect_upto(f, vs, n) is Some {
            if variant_fits(f, vs[n - 1]) {
                assert(0 <= n - 1 < n && variant_fits(f, vs[n - 1]));
            }
        }
    }
}

/// The returned score is at least the peak score of every fitting variant.
pub proof fn lemma_detect_ge_variant(f: Grid, vs: Seq<TemplateVariant>, n: int, i: int)
    requires
        0 <= i < n <= vs.len(),
        variant_fits(f, vs[i]),
    ensures
        spec_detect_upto(f, vs, n) is Some,
        spec_detect_upto(f, vs, n)->0.score_micro >= variant_detection(f, vs[i]).score_micro,
    decreases n,
{
    lemma_detect_some_iff_fits(f, vs, n);
    if i < n - 1 {
        lemma_detect_ge_variant(f, vs, n - 1, i);
    }
}

/// Every detection the fold can produce has a score between the sentinel
/// and one million.
proof fn lemma_detect_score_range(f: Grid, vs: Seq<TemplateVariant>, n: int)
    requires
        0 <= n <= vs.len(),
    ensures
        spec_detect_upto(f, vs, n) is Some ==> -1 <= spec_detect_upto(f, vs, n)->0.score_micro
            <= 1_000_000,
    decreases n,
{
    if n > 0 {
        lemma_detect_score_range(f, vs, n - 1);
        if variant_fits(f, vs[n - 1]) {
            let v = vs[n - 1];
            let fw = f.width as int;
            let fh = f.height as int;
            let tw = v.grid.width as int;
            let th = v.grid.height as int;
            assert((fw - tw + 1) * (fh - th + 1) >= 1) by (nonlinear_arith)
                requires
                    tw <= fw,
                    th <= fh,
            ;
            crate::ncc::lemma_peak_bounds(
                f.pixels@,
                fw,
                v.grid.pixels@,
                tw,
                th,
                fw - tw + 1,
                (fw - tw + 1) * (fh - th + 1),
            );
        }
    }
}

/// Matching the marker's own pixels, placed unmodified inside a larger
/// frame at some offset, yields a detection with a perfect score, provided
/// the placed variant has at least one non-black pixel (`pi` indexes one).
pub proof fn lemma_perfect_match(frame: Grid, t: Template, vi: int, ox: int, oy: int, pi: int)
    requires
        frame.wf(),
        t.wf(),
        0 <= vi < t.variants@.len(),
        0 <= ox,
        0 <= oy,
        ox + t.variants@[vi].grid.width <= frame.width,
        oy + t.variants@[vi].grid.height <= frame.height,
        forall|j: int, i: int|
            0 <= j < t.variants@[vi].grid.height && 0 <= i < t.variants@[vi].grid.width
                ==> frame.pixels@[(oy + j) * frame.width + ox + i]
                == t.variants@[vi].grid.pixels@[#[trigger] (j * t.variants@[vi].grid.width + i)],
        0 <= pi < t.variants@[vi].grid.pixels@.len(),
        t.variants@[vi].grid.pixels@[pi] != 0,
    ensures
        spec_detect(frame, t) is Some,
        spec_detect(frame, t)->0.score_micro == 1_000_000,
{
    let v = t.variants@[vi];
    assert(v.wf());
    let fw = frame.width as int;
    let fh = frame.height as int;
    let tw = v.grid.width as int;
    let th = v.grid.height as int;
    crate::ncc::lemma_perfect_score(
        frame.pixels@,
        fw,
        fh,
        v.grid.pixels@,
        tw,
        th,
        ox,
        oy,
        pi,
    );
    crate::ncc::lemma_peak_ge(frame.pixels@, fw, fh, v.grid.pixels@, tw, th, ox, oy);
    assert(variant_fits(frame, v));
    lemma_detect_ge_variant(frame, t.variants@, t.variants@.len() as int, vi);
    lemma_detect_score_range(frame, t.variants@, t.variants@.len() as int);
}

/// Matching is deterministic: any two results that satisfy `detect`'s
/// contract on the same frame and marker model are the same detection.
pub proof fn lemma_detect_deterministic(
    f: Grid,
    t: Template,
    r1: Option<Detection>,
    r2: Option<Detection>,
)
    requires
        r1 == spec_detect(f, t),
        r2 == spec_detect(f, t),
    ensures
        r1 == r2,
{
}

} // verus!
