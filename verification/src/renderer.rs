//! The renderer: samples every equation at each pixel column's two
//! x-boundaries, then marks a pixel wherever some pair of samples brackets
//! the pixel's y-interval. The whole pass is modelled by spec functions,
//! and the executable renderer is proved to fill exactly the grid the model
//! describes.

use vstd::prelude::*;
use crate::data::{Range, RangeV, Vector2, FX_SCALE};
use crate::exceptions::{RendererException, RendererExceptionBase, RendererExceptionV};
use crate::fixed::{clamp128, fx_clamp_i, div_tz, i128_div_tz, lemma_mul_bound};
use crate::interpreter::{IDataV, InterpreterData};
use crate::nodes::{eval_s, NodeV};
use crate::values::{LeftRight, MultipleValues};

verus! {

/// Spec mirror of `LeftRight`.
pub struct LRV {
    pub left: Seq<i64>,
    pub right: Seq<i64>,
}

impl View for LeftRight {
    type V = LRV;

    open spec fn view(&self) -> LRV {
        LRV { left: self.left@, right: self.right@ }
    }
}

/// The views of a column's sample list.
pub open spec fn lrs_v(s: Seq<LeftRight>) -> Seq<LRV> {
    s.map_values(|lr: LeftRight| lr@)
}

/// The views of the whole column table.
pub open spec fn cols_v(s: Seq<Vec<LeftRight>>) -> Seq<Seq<LRV>> {
    s.map_values(|c: Vec<LeftRight>| lrs_v(c@))
}

/// A configuration the renderer accepts: what the interpreter always
/// produces.
pub open spec fn idata_wf(d: IDataV) -> bool {
    &&& d.size.x >= 1
    &&& d.size.y >= 1
    &&& d.resolution.x >= 0
    &&& d.resolution.y >= 0
}

/// The effective resolution: a zero component falls back to the frame size.
pub open spec fn eff_res(d: IDataV) -> Vector2 {
    Vector2 {
        x: if d.resolution.x == 0 {
            d.size.x
        } else {
            d.resolution.x
        },
        y: if d.resolution.y == 0 {
            d.size.y
        } else {
            d.resolution.y
        },
    }
}

/// The fixed-point frame coordinate of sample line `idx` of `res` along one
/// axis: `pos + size * idx / res`, truncated and saturated.
pub open spec fn axis_fx(pos: i32, size: i32, res: i32, idx: int) -> i64
    recommends
        res >= 1,
{
    fx_clamp_i(pos * (FX_SCALE as int) + div_tz(size * idx * (FX_SCALE as int), res as int)) as i64
}

/// The left x-boundary of column `i`.
pub open spec fn col_x1(d: IDataV, i: int) -> i64 {
    axis_fx(d.position.x, d.size.x, eff_res(d).x, i)
}

/// The right x-boundary of column `i`.
pub open spec fn col_x2(d: IDataV, i: int) -> i64 {
    axis_fx(d.position.x, d.size.x, eff_res(d).x, i + 1)
}

/// The lower y-boundary of row `j` (row zero is the top of the image).
pub open spec fn row_y1(d: IDataV, j: int) -> i64 {
    axis_fx(d.position.y, d.size.y, eff_res(d).y, eff_res(d).y - 1 - j)
}

/// The upper y-boundary of row `j`.
pub open spec fn row_y2(d: IDataV, j: int) -> i64 {
    axis_fx(d.position.y, d.size.y, eff_res(d).y, eff_res(d).y - j)
}

/// One equation's samples over one column, from equation `k` on: the left
/// boundary is evaluated before the right, and the first diagnostic aborts.
pub open spec fn col_samples_from(eqs: Seq<NodeV>, x1: i64, x2: i64, k: int) -> Result<
    Seq<LRV>,
    RendererExceptionV,
>
    decreases eqs.len() - k,
        when 0 <= k <= eqs.len()
{
    if k == eqs.len() {
        Ok(Seq::empty())
    } else {
        match eval_s(eqs[k], x1) {
            Ok(l) => match eval_s(eqs[k], x2) {
                Ok(r) => match col_samples_from(eqs, x1, x2, k + 1) {
                    Ok(rest) => Ok(seq![LRV { left: l, right: r }] + rest),
                    Err(e) => Err(e),
                },
                Err(e) => Err(e),
            },
            Err(e) => Err(e),
        }
    }
}

/// The sample table over all columns from column `i` on.
pub open spec fn render_cols_from(d: IDataV, i: int, w: int) -> Result<
    Seq<Seq<LRV>>,
    RendererExceptionV,
>
    decreases w - i,
        when 0 <= i <= w
{
    if i == w {
        Ok(Seq::empty())
    } else {
        match col_samples_from(d.equations, col_x1(d, i), col_x2(d, i), 0) {
            Ok(s) => match render_cols_from(d, i + 1, w) {
                Ok(rest) => Ok(seq![s] + rest),
                Err(e) => Err(e),
            },
            Err(e) => Err(e),
        }
    }
}

/// The whole sample table, or the first diagnostic.
pub open spec fn render_cols(d: IDataV) -> Result<Seq<Seq<LRV>>, RendererExceptionV> {
    render_cols_from(d, 0, eff_res(d).x as int)
}

/// Whether a pair of samples brackets the pixel's y-interval, from either
/// side.
pub open spec fn bracket_s(l: i64, r: i64, y1: i64, y2: i64) -> bool {
    (y1 >= l && y2 <= r) || (y1 <= l && y2 >= r)
}

/// Whether any branch pair of one equation's samples brackets the interval.
pub open spec fn cell_hit_s(lr: LRV, y1: i64, y2: i64) -> bool {
    exists|a: int, b: int|
        0 <= a < lr.left.len() && 0 <= b < lr.right.len() && bracket_s(
            lr.left[a],
            lr.right[b],
            y1,
            y2,
        )
}

/// Whether any equation puts the pixel on a curve.
pub open spec fn pixel_on_s(samples: Seq<LRV>, y1: i64, y2: i64) -> bool {
    exists|k: int| 0 <= k < samples.len() && cell_hit_s(samples[k], y1, y2)
}

/// The pixel grid: row-major, row zero at the top, `true` where a curve
/// crosses the pixel's cell.
#[derive(Debug)]
pub struct Raster {
    pub width: usize,
    pub height: usize,
    pub pixels: Vec<bool>,
}

impl Raster {
    /// A raster's pixel vector covers exactly its dimensions.
    pub open spec fn wf(&self) -> bool {
        self.pixels@.len() == self.width * self.height
    }

    /// The pixel at column `x` of row `j`.
    pub fn get(&self, x: usize, j: usize) -> (r: bool)
        requires
            self.wf(),
            x < self.width,
            j < self.height,
        ensures
            r == self.pixels@[j * self.width + x],
    {
        let n = self.pixels.len();
        proof {
            lemma_grid_index(j as int, x as int, self.width as int, self.height as int);
            assert(j * self.width + x < n);
        }
        self.pixels[j * self.width + x]
    }
}

pub(crate) proof fn lemma_grid_index(j: int, x: int, w: int, h: int)
    by (nonlinear_arith)
    requires
        0 <= x < w,
        0 <= j < h,
    ensures
        0 <= j * w + x < w * h,
{
}

/// How a finished grid relates to the model: the effective dimensions, and
/// each pixel equal to the bracket test of its column's samples against its
/// row's y-interval.
pub open spec fn raster_matches(ras: Raster, d: IDataV, cols: Seq<Seq<LRV>>) -> bool {
    &&& ras.wf()
    &&& ras.width == eff_res(d).x
    &&& ras.height == eff_res(d).y
    &&& forall|x: int, j: int|
        0 <= x < ras.width && 0 <= j < ras.height ==> ras.pixels@[j * ras.width + x]
            == pixel_on_s(cols[x], row_y1(d, j), row_y2(d, j))
}

/// The renderer's outcome: the grid on success, the first evaluation
/// diagnostic otherwise.
#[derive(Debug)]
pub struct RendererResult {
    pub success: bool,
    pub raster: Raster,
    pub exception: RendererException,
}

/// The frame coordinate of one sample line, run by the machine.
fn axis_coord(pos: i32, size: i32, res: i32, idx: i64) -> (r: i64)
    requires
        res >= 1,
        0 <= idx <= 0x8000_0000,
    ensures
        r == axis_fx(pos, size, res, idx as int),
{
    proof {
        lemma_mul_bound(size as int, idx as int, 0x8000_0000, 0x8000_0000);
        lemma_mul_bound((size as int) * (idx as int), FX_SCALE as int, 0x4000_0000_0000_0000, 0x1000000);
    }
    let num: i128 = (size as i128) * (idx as i128) * (FX_SCALE as i128);
    let q: i128 = i128_div_tz(num, res as i128);
    proof {
        lemma_mul_bound(pos as int, FX_SCALE as int, 0x8000_0000, 0x1000000);
    }
    let total: i128 = (pos as i128) * (FX_SCALE as i128) + q;
    clamp128(total)
}

/// Whether any branch pair of one equation's samples brackets the interval,
/// run by the machine.
fn cell_hit(lr: &LeftRight, y1: i64, y2: i64) -> (r: bool)
    ensures
        r == cell_hit_s(lr@, y1, y2),
{
    let nl = lr.left.values.len();
    let nr = lr.right.values.len();
    let mut a: usize = 0;
    while a < nl
        invariant
            a <= nl,
            nl == lr.left@.len(),
            nr == lr.right@.len(),
            forall|a2: int, b2: int|
                0 <= a2 < a && 0 <= b2 < nr ==> !bracket_s(lr.left@[a2], lr.right@[b2], y1, y2),
        decreases nl - a,
    {
        let l = lr.left.values[a];
        let mut b: usize = 0;
        while b < nr
            invariant
                a < nl,
                b <= nr,
                nl == lr.left@.len(),
                nr == lr.right@.len(),
                l == lr.left@[a as int],
                forall|a2: int, b2: int|
                    0 <= a2 < a && 0 <= b2 < nr ==> !bracket_s(lr.left@[a2], lr.right@[b2], y1, y2),
                forall|b2: int| 0 <= b2 < b ==> !bracket_s(lr.left@[a as int], lr.right@[b2], y1, y2),
            decreases nr - b,
        {
            let r = lr.right.values[b];
            if (y1 >= l && y2 <= r) || (y1 <= l && y2 >= r) {
                proof {
                    assert(cell_hit_s(lr@, y1, y2)) by {
                        assert(0 <= a < lr@.left.len() && 0 <= b < lr@.right.len() && bracket_s(
                            lr@.left[a as int],
                            lr@.right[b as int],
                            y1,
                            y2,
                        ));
                    }
                }
                return true;
            }
            b = b + 1;
        }
        a = a + 1;
    }
    false
}

/// Whether any equation puts the pixel on a curve, run by the machine.
fn pixel_on(samples: &Vec<LeftRight>, y1: i64, y2: i64) -> (r: bool)
    ensures
        r == pixel_on_s(lrs_v(samples@), y1, y2),
{
    let n = samples.len();
    let mut k: usize = 0;
    proof {
        assert(lrs_v(samples@).len() == samples@.len());
    }
    while k < n
        invariant
            k <= n,
            n == samples@.len(),
            lrs_v(samples@).len() == n,
            forall|k2: int| 0 <= k2 < k ==> !cell_hit_s(lrs_v(samples@)[k2], y1, y2),
        decreases n - k,
    {
        if cell_hit(&samples[k], y1, y2) {
            proof {
                assert(lrs_v(samples@)[k as int] == samples@[k as int]@);
            }
            return true;
        }
        proof {
            assert(lrs_v(samples@)[k as int] == samples@[k as int]@);
        }
        k = k + 1;
    }
    false
}

/// Joins finished columns onto the remaining table's outcome.
pub open spec fn prepend_cols(
    a: Seq<Seq<LRV>>,
    rest: Result<Seq<Seq<LRV>>, RendererExceptionV>,
) -> Result<Seq<Seq<LRV>>, RendererExceptionV> {
    match rest {
        Ok(b) => Ok(a + b),
        Err(e) => Err(e),
    }
}

/// Joins finished samples onto the remaining column's outcome.
pub open spec fn prepend_lrs(
    a: Seq<LRV>,
    rest: Result<Seq<LRV>, RendererExceptionV>,
) -> Result<Seq<LRV>, RendererExceptionV> {
    match rest {
        Ok(b) => Ok(a + b),
        Err(e) => Err(e),
    }
}

/// Samples every equation over one column, run by the machine.
fn sample_column(eqs: &Vec<crate::nodes::Node>, x1: i64, x2: i64) -> (r: Result<
    Vec<LeftRight>,
    RendererException,
>)
    ensures
        (match col_samples_from(crate::nodes::nodes_v(eqs@), x1, x2, 0) {
            Ok(s) => r matches Ok(v) && lrs_v(v@) == s,
            Err(e) => r matches Err(ex) && ex@ == e,
        }),
{
    let ghost eqsv = crate::nodes::nodes_v(eqs@);
    let n = eqs.len();
    let mut out: Vec<LeftRight> = Vec::new();
    let mut k: usize = 0;
    proof {
        assert(eqsv.len() == eqs@.len());
        assert(lrs_v(out@) =~= Seq::<LRV>::empty());
    }
    while k < n
        invariant
            k <= n,
            n == eqs@.len(),
            eqsv == crate::nodes::nodes_v(eqs@),
            eqsv.len() == n,
            prepend_lrs(lrs_v(out@), col_samples_from(eqsv, x1, x2, k as int))
                == col_samples_from(eqsv, x1, x2, 0),
        decreases n - k,
    {
        proof {
            assert(eqsv[k as int] == crate::nodes::node_view(eqs@[k as int]));
        }
        let eq1 = eqs[k].simplify(x1);
        if !eq1.success {
            return Err(eq1.exception);
        }
        let eq2 = eqs[k].simplify(x2);
        if !eq2.success {
            return Err(eq2.exception);
        }
        let lr = LeftRight { left: eq1.value, right: eq2.value };
        let ghost out0 = out@;
        let ghost lrv = lr@;
        out.push(lr);
        proof {
            assert(lrs_v(out@) =~= lrs_v(out0).push(lrv));
            if let Ok(rest) = col_samples_from(eqsv, x1, x2, k + 1 as int) {
                assert(lrs_v(out0) + (seq![lrv] + rest) =~= lrs_v(out0).push(lrv) + rest);
            }
        }
        k = k + 1;
    }
    proof {
        assert(lrs_v(out@) + Seq::<LRV>::empty() =~= lrs_v(out@));
    }
    Ok(out)
}

/// Renders a layout configuration into a pixel grid, exactly as the model
/// says: the sample table of [`render_cols`], then, for each pixel, the
/// bracket test [`pixel_on_s`] against its row's y-interval. The first
/// evaluation diagnostic aborts the render.
pub fn render(data: InterpreterData) -> (r: RendererResult)
    requires
        idata_wf(data@),
        (eff_res(data@).x as int) * (eff_res(data@).y as int) <= usize::MAX as int,
    ensures
        (match render_cols(data@) {
            Ok(cols) => {
                &&& r.success
                &&& raster_matches(r.raster, data@, cols)
                &&& r.exception@ == (RendererExceptionV {
                    base: RendererExceptionBase::NoException,
                    message: Seq::empty(),
                    range: RangeV { filename: Seq::empty(), start: 0, end: 0 },
                })
            },
            Err(e) => !r.success && r.exception@ == e,
        }),
{
    let ghost dv = data@;
    let rx: i32 = if data.resolution.x == 0 {
        data.size.x
    } else {
        data.resolution.x
    };
    let ry: i32 = if data.resolution.y == 0 {
        data.size.y
    } else {
        data.resolution.y
    };
    proof {
        assert(eff_res(dv).x == rx);
        assert(eff_res(dv).y == ry);
    }
    let w = rx as usize;
    let h = ry as usize;

    let mut columns: Vec<Vec<LeftRight>> = Vec::new();
    let mut i: usize = 0;
    proof {
        assert(cols_v(columns@) =~= Seq::<Seq<LRV>>::empty());
    }
    while i < w
        invariant
            i <= w,
            w == rx as int,
            rx >= 1,
            dv == data@,
            idata_wf(dv),
            eff_res(dv).x == rx,
            columns@.len() == i,
            prepend_cols(cols_v(columns@), render_cols_from(dv, i as int, w as int))
                == render_cols(dv),
        decreases w - i,
    {
        let x1 = axis_coord(data.position.x, data.size.x, rx, i as i64);
        let x2 = axis_coord(data.position.x, data.size.x, rx, i as i64 + 1);
        match sample_column(&data.equations, x1, x2) {
            Ok(col) => {
                let ghost cols0 = columns@;
                let ghost colv = lrs_v(col@);
                columns.push(col);
                proof {
                    assert(cols_v(columns@) =~= cols_v(cols0).push(colv));
                    if let Ok(rest) = render_cols_from(dv, i + 1 as int, w as int) {
                        assert(cols_v(cols0) + (seq![colv] + rest) =~= cols_v(cols0).push(colv)
                            + rest);
                    }
                }
                i = i + 1;
            },
            Err(ex) => {
                return RendererResult {
                    success: false,
                    raster: Raster { width: 0, height: 0, pixels: Vec::new() },
                    exception: ex,
                };
            },
        }
    }
    proof {
        assert(cols_v(columns@) + Seq::<Seq<LRV>>::empty() =~= cols_v(columns@));
    }
    let ghost colsv = cols_v(columns@);

    let mut pixels: Vec<bool> = Vec::new();
    let mut j: usize = 0;
    while j < h
        invariant
            j <= h,
            w == rx as int,
            h == ry as int,
            rx >= 1,
            ry >= 1,
            dv == data@,
            idata_wf(dv),
            eff_res(dv).x == rx,
            eff_res(dv).y == ry,
            (w as int) * (h as int) <= usize::MAX as int,
            columns@.len() == w,
            colsv == cols_v(columns@),
            colsv.len() == w,
            render_cols(dv) == Ok::<Seq<Seq<LRV>>, RendererExceptionV>(colsv),
            pixels@.len() == j * w,
            forall|jj: int, xx: int|
                0 <= jj < j && 0 <= xx < w ==> pixels@[jj * w + xx] == pixel_on_s(
                    colsv[xx],
                    row_y1(dv, jj),
                    row_y2(dv, jj),
                ),
        decreases h - j,
    {
        proof {
            assert(ry - 1 - (j as int) >= 0);
            lemma_grid_index(j as int, 0, w as int, h as int);
        }
        let y1 = axis_coord(data.position.y, data.size.y, ry, ry as i64 - 1 - j as i64);
        let y2 = axis_coord(data.position.y, data.size.y, ry, ry as i64 - j as i64);
        proof {
            assert(y1 == row_y1(dv, j as int));
            assert(y2 == row_y2(dv, j as int));
        }
        let mut x: usize = 0;
        while x < w
            invariant
                x <= w,
                j < h,
                w == rx as int,
                h == ry as int,
                dv == data@,
                (w as int) * (h as int) <= usize::MAX as int,
                columns@.len() == w,
                colsv == cols_v(columns@),
                colsv.len() == w,
                y1 == row_y1(dv, j as int),
                y2 == row_y2(dv, j as int),
                pixels@.len() == j * w + x,
                forall|jj: int, xx: int|
                    0 <= jj < j && 0 <= xx < w ==> pixels@[jj * w + xx] == pixel_on_s(
                        colsv[xx],
                        row_y1(dv, jj),
                        row_y2(dv, jj),
                    ),
                forall|xx: int|
                    0 <= xx < x ==> pixels@[j * w + xx] == pixel_on_s(
                        colsv[xx],
                        row_y1(dv, j as int),
                        row_y2(dv, j as int),
                    ),
            decreases w - x,
        {
            proof {
                lemma_grid_index(j as int, x as int, w as int, h as int);
                assert(colsv[x as int] == lrs_v(columns@[x as int]@));
            }
            let on = pixel_on(&columns[x], y1, y2);
            pixels.push(on);
            proof {
                assert forall|jj: int, xx: int|
                    0 <= jj < j && 0 <= xx < w implies pixels@[jj * w + xx] == pixel_on_s(
                    colsv[xx],
                    row_y1(dv, jj),
                    row_y2(dv, jj),
                ) by {
                    assert(0 <= jj * w + xx < j * (w as int)) by (nonlinear_arith)
                        requires
                            0 <= jj < j,
                            0 <= xx < w,
                            1 <= w,
                    ;
                }
            }
            x = x + 1;
        }
        proof {
            assert((j + 1) * (w as int) == j * w + w) by (nonlinear_arith);
            assert forall|jj: int, xx: int|
                0 <= jj < j + 1 && 0 <= xx < w implies pixels@[jj * w + xx] == pixel_on_s(
                colsv[xx],
                row_y1(dv, jj),
                row_y2(dv, jj),
            ) by {
                if jj < j {
                    assert(0 <= jj * w + xx < j * w) by (nonlinear_arith)
                        requires
                            0 <= jj < j,
                            0 <= xx < w,
                            1 <= w,
                    ;
                } else {
                    assert(jj == j);
                }
            }
        }
        j = j + 1;
    }
    proof {
        lemma_mul_commute_bound(h as int, w as int);
    }
    RendererResult {
        success: true,
        raster: Raster { width: w, height: h, pixels },
        exception: RendererException {
            base: RendererExceptionBase::NoException,
            message: String::new(),
            range: Range { filename: String::new(), start: 0, end: 0 },
        },
    }
}

proof fn lemma_mul_commute_bound(a: int, b: int)
    by (nonlinear_arith)
    ensures
        a * b == b * a,
{
}

} // verus!
