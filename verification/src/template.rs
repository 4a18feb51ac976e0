//! Building the marker model: a ladder of scaled variants of one base
//! image.
//!
//! The ladder spans 0.65x to 1.30x in 0.05 steps. For each factor the
//! target size is the base size times the factor, rounded half up; factors
//! whose rounded size falls below 4x4 are dropped. The base factor 1.00
//! reuses the base pixels unchanged; every other factor resamples the base
//! to the target size with the image crate's Lanczos filter.

use vstd::prelude::*;

use crate::detect::{Template, TemplateVariant, TemplateVariantV};
use crate::grid::{Grid, GridV};

verus! {

/// The scale ladder, in hundredths, in the order variants are tried.
pub open spec fn spec_ladder() -> Seq<u32> {
    seq![65u32, 70, 75, 80, 85, 90, 95, 100, 105, 110, 115, 120, 125, 130]
}

/// The ladder as a vector.
pub fn ladder() -> (r: Vec<u32>)
    ensures
        r@ == spec_ladder(),
{
    let mut v: Vec<u32> = Vec::new();
    v.push(65);
    v.push(70);
    v.push(75);
    v.push(80);
    v.push(85);
    v.push(90);
    v.push(95);
    v.push(100);
    v.push(105);
    v.push(110);
    v.push(115);
    v.push(120);
    v.push(125);
    v.push(130);
    proof {
        assert(v@ =~= spec_ladder());
    }
    v
}

/// A side length scaled by a factor in hundredths, rounded half up.
pub open spec fn spec_scaled_dim(d: int, s: int) -> int {
    (d * s + 50) / 100
}

/// What the image crate's Lanczos resampling returns for a grayscale
/// buffer of the given size, resampled to the new size.
pub uninterp spec fn resized(src: Seq<u8>, w: int, h: int, nw: int, nh: int) -> Seq<u8>;

/// Relies on image::imageops::resize with FilterType::Lanczos3: resamples
/// a grayscale buffer to the new dimensions, returning one byte per target
/// pixel; the result depends on the arguments alone.
#[verifier::external_body]
fn resize_lanczos(src: &Vec<u8>, w: usize, h: usize, nw: usize, nh: usize) -> (r: Vec<u8>)
    requires
        src@.len() == w * h,
        1 <= w <= 0x8000,
        1 <= h <= 0x8000,
        1 <= nw <= 0x8000,
        1 <= nh <= 0x8000,
    ensures
        r@.len() == nw * nh,
        r@ == resized(src@, w as int, h as int, nw as int, nh as int),
{
    let img = image::GrayImage::from_raw(w as u32, h as u32, src.clone())
        .expect("buffer length matches the dimensions");
    let out = image::imageops::resize(
        &img,
        nw as u32,
        nh as u32,
        image::imageops::FilterType::Lanczos3,
    );
    out.into_raw()
}

/// The variant a ladder factor yields from a base image: the base pixels
/// unchanged at factor 100, else the base resampled to the rounded size.
pub open spec fn spec_variant_of(base: GridV, s: u32) -> TemplateVariantV {
    let nw = spec_scaled_dim(base.width as int, s as int);
    let nh = spec_scaled_dim(base.height as int, s as int);
    if s == 100 {
        TemplateVariantV { scale_centi: s, grid: base }
    } else {
        TemplateVariantV {
            scale_centi: s,
            grid: GridV {
                width: nw as nat,
                height: nh as nat,
                pixels: resized(base.pixels, base.width as int, base.height as int, nw, nh),
            },
        }
    }
}

/// Whether a ladder factor is kept: both rounded sides reach 4 pixels.
pub open spec fn spec_factor_kept(base: GridV, s: u32) -> bool {
    spec_scaled_dim(base.width as int, s as int) >= 4 && spec_scaled_dim(
        base.height as int,
        s as int,
    ) >= 4
}

/// The variants the first `n` ladder factors yield, in ladder order,
/// dropping factors whose rounded size falls below 4x4.
pub open spec fn spec_build_upto(base: GridV, ladder: Seq<u32>, n: int) -> Seq<TemplateVariantV>
    decreases n,
{
    if n <= 0 {
        Seq::empty()
    } else {
        let prev = spec_build_upto(base, ladder, n - 1);
        if spec_factor_kept(base, ladder[n - 1]) {
            prev.push(spec_variant_of(base, ladder[n - 1]))
        } else {
            prev
        }
    }
}

/// The marker model a base image yields.
pub open spec fn spec_build(base: GridV) -> Seq<TemplateVariantV> {
    spec_build_upto(base, spec_ladder(), spec_ladder().len() as int)
}

impl Template {
    /// Build the marker model from a decoded base image. The base must be
    /// within the size cap, which leaves room for the largest factor.
    #[verifier::loop_isolation(false)]
    pub fn build(base: &Grid) -> (r: Template)
        requires
            base.wf(),
            1 <= base.width <= 0x4000,
            1 <= base.height <= 0x4000,
        ensures
            r.variants@.map_values(|v: TemplateVariant| v@) == spec_build(base@),
            r.wf(),
    {
        let steps = ladder();
        let n = steps.len();
        let mut variants: Vec<TemplateVariant> = Vec::new();
        let mut idx: usize = 0;
        while idx < n
            invariant
                idx <= n,
                variants@.map_values(|v: TemplateVariant| v@) == spec_build_upto(
                    base@,
                    spec_ladder(),
                    idx as int,
                ),
                forall|i: int| 0 <= i < variants@.len() ==> #[trigger] variants@[i].wf(),
            decreases n - idx,
        {
            let s = steps[idx];
            proof {
                assert(base.width * s + 50 <= 0x4000 * 130 + 50 && base.height * s + 50 <= 0x4000
                    * 130 + 50) by (nonlinear_arith)
                    requires
                        base.width <= 0x4000,
                        base.height <= 0x4000,
                        s <= 130,
                ;
            }
            let nw: usize = (base.width * (s as usize) + 50) / 100;
            let nh: usize = (base.height * (s as usize) + 50) / 100;
            proof {
                if s == 100 {
                    vstd::arithmetic::div_mod::lemma_fundamental_div_mod_converse(
                        (base.width * 100 + 50) as int,
                        100,
                        base.width as int,
                        50,
                    );
                    vstd::arithmetic::div_mod::lemma_fundamental_div_mod_converse(
                        (base.height * 100 + 50) as int,
                        100,
                        base.height as int,
                        50,
                    );
                    assert(nw == base.width && nh == base.height);
                }
            }
            if nw >= 4 && nh >= 4 {
                let grid = if s == 100 {
                    Grid { width: base.width, height: base.height, pixels: clone_pixels(&base.pixels) }
                } else {
                    Grid {
                        width: nw,
                        height: nh,
                        pixels: resize_lanczos(&base.pixels, base.width, base.height, nw, nh),
                    }
                };
                proof {
                    if s == 100 {
                        assert(grid@ =~= base@);
                    }
                }
                let v = TemplateVariant { scale_centi: s, grid };
                variants.push(v);
                proof {
                    assert(v@ =~= spec_variant_of(base@, s));
                    assert(variants@.map_values(|vv: TemplateVariant| vv@) =~= spec_build_upto(
                        base@,
                        spec_ladder(),
                        idx as int + 1,
                    ));
                }
            } else {
                proof {
                    assert(variants@.map_values(|vv: TemplateVariant| vv@) =~= spec_build_upto(
                        base@,
                        spec_ladder(),
                        idx as int + 1,
                    ));
                }
            }
            idx = idx + 1;
        }
        Template { variants }
    }
}

/// Copy a pixel buffer.
fn clone_pixels(p: &Vec<u8>) -> (r: Vec<u8>)
    ensures
        r@ == p@,
{
    let r = p.clone();
    proof {
        assert(r@ =~= p@);
    }
    r
}

} // verus!
