use vstd::prelude::*;

verus! {

/// The size of the rendered image, in pixels.
#[derive(Clone, Copy, Debug, PartialEq, Eq, Structural)]
pub struct Resolution {
    pub width: usize,
    pub height: usize,
}

/// A run of whole rows of the pixel buffer, rendered by one worker: rows
/// `first_row .. first_row + rows`, which are the buffer's entries
/// `start .. start + len` (row `y` starts at `y * width`, row 0 at the
/// bottom).
#[derive(Clone, Copy, Debug, PartialEq, Eq, Structural)]
pub struct Band {
    pub first_row: usize,
    pub rows: usize,
    pub start: usize,
    pub len: usize,
}

impl Resolution {
    /// The pixel buffer of this size can be addressed.
    pub open spec fn wf(self) -> bool {
        self.width * self.height <= usize::MAX
    }

    /// A resolution whose pixel count fits in `usize`, else `None`.
    pub fn new(width: usize, height: usize) -> (r: Option<Resolution>)
        ensures
            r is Some <==> width * height <= usize::MAX,
            r matches Some(res) ==> res.width == width && res.height == height && res.wf(),
    {
        match width.checked_mul(height) {
            Some(_) => Some(Resolution { width, height }),
            None => None,
        }
    }

    /// The number of pixels, `width * height`.
    pub fn pixel_count(&self) -> (n: usize)
        requires
            self.wf(),
        ensures
            n == self.width * self.height,
    {
        self.width * self.height
    }

    /// The position of pixel `(x, y)` in the row-major buffer, row 0 at the
    /// bottom.
    pub fn pixel_index(&self, x: usize, y: usize) -> (i: usize)
        requires
            self.wf(),
            x < self.width,
            y < self.height,
        ensures
            i == y * self.width + x,
            i < self.width * self.height,
    {
        proof {
            lemma_index_in_grid(x as int, y as int, self.width as int, self.height as int);
        }
        y * self.width + x
    }
}

/// Entry `y * w + x` of a `w` by `h` grid lies inside it.
pub proof fn lemma_index_in_grid(x: int, y: int, w: int, h: int)
    requires
        0 <= x < w,
        0 <= y < h,
    ensures
        0 <= y * w + x < w * h,
        y * w + x + 1 <= (y + 1) * w,
        (y + 1) * w <= h * w,
{
    assert(0 <= y * w) by (nonlinear_arith)
        requires
            0 <= y,
            0 <= w,
    ;
    assert((y + 1) * w <= h * w) by (nonlinear_arith)
        requires
            y + 1 <= h,
            0 <= w,
    ;
    assert((y + 1) * w == y * w + w) by (nonlinear_arith);
    assert(h * w == w * h) by (nonlinear_arith);
}

/// The number of bands of at most `rows_per_band` rows that cover `height`
/// rows.
pub open spec fn band_count(height: nat, rows_per_band: nat) -> nat
    recommends
        rows_per_band > 0,
{
    if height % rows_per_band == 0 {
        height / rows_per_band
    } else {
        height / rows_per_band + 1
    }
}

/// Band `i` of the image cut into runs of `rows_per_band` rows from the
/// bottom; the last one takes the rows that are left.
pub open spec fn band_at(res: Resolution, rows_per_band: nat, i: nat) -> Band {
    let first = i * rows_per_band;
    let rows = if first + rows_per_band <= res.height {
        rows_per_band
    } else {
        (res.height - first) as nat
    };
    Band {
        first_row: first as usize,
        rows: rows as usize,
        start: (first * res.width) as usize,
        len: (rows * res.width) as usize,
    }
}

/// Row `y` belongs to band `b`.
pub open spec fn band_holds_row(b: Band, y: int) -> bool {
    b.first_row <= y < b.first_row + b.rows
}

/// Cuts the image into bands of `rows_per_band` rows from the bottom, the
/// last band holding what is left, so that workers can render them apart.
pub fn bands(res: Resolution, rows_per_band: usize) -> (r: Vec<Band>)
    requires
        res.wf(),
        rows_per_band > 0,
    ensures
        r@.len() == band_count(res.height as nat, rows_per_band as nat),
        forall|i: int|
            0 <= i < r@.len() ==> #[trigger] r@[i] == band_at(res, rows_per_band as nat, i as nat),
{
    let h = res.height;
    let w = res.width;
    let k = rows_per_band;
    let count = if h % k == 0 {
        h / k
    } else {
        assert(h / k < h) by (nonlinear_arith)
            requires
                k > 0,
                h % k != 0,
        ;
        h / k + 1
    };
    let mut out: Vec<Band> = Vec::new();
    for i in 0..count
        invariant
            h == res.height,
            w == res.width,
            k == rows_per_band,
            k > 0,
            res.wf(),
            count == band_count(h as nat, k as nat),
            out@.len() == i,
            forall|j: int| 0 <= j < i ==> #[trigger] out@[j] == band_at(res, k as nat, j as nat),
    {
        proof {
            lemma_band_starts_inside(h as int, k as int, i as int);
            lemma_rows_fit(i as int * k as int, h as int, w as int);
        }
        let first = i * k;
        let rows = if h - first >= k {
            k
        } else {
            h - first
        };
        proof {
            lemma_rows_fit(rows as int, h as int, w as int);
        }
        out.push(Band { first_row: first, rows, start: first * w, len: rows * w });
    }
    out
}

/// Band `i` of `count` starts below the top row.
proof fn lemma_band_starts_inside(h: int, k: int, i: int)
    requires
        h >= 0,
        k > 0,
        0 <= i < band_count(h as nat, k as nat),
    ensures
        0 <= i * k < h,
{
    let q = h / k;
    let m = h % k;
    assert(h == q * k + m && 0 <= m < k) by (nonlinear_arith)
        requires
            k > 0,
            q == h / k,
            m == h % k,
    ;
    if m == 0 {
        assert(0 <= i * k < h) by (nonlinear_arith)
            requires
                0 <= i < q,
                h == q * k,
                k > 0,
        ;
    } else {
        assert(0 <= i * k < h) by (nonlinear_arith)
            requires
                0 <= i <= q,
                h == q * k + m,
                0 < m,
                k > 0,
        ;
    }
}

/// Up to `h` rows of `w` pixels fit in an addressable buffer.
proof fn lemma_rows_fit(rows: int, h: int, w: int)
    requires
        0 <= rows <= h,
        0 <= w,
        w * h <= usize::MAX,
    ensures
        0 <= rows * w <= w * h,
{
    assert(0 <= rows * w <= w * h) by (nonlinear_arith)
        requires
            0 <= rows <= h,
            0 <= w,
    ;
}

/// The bands cover the image: each row lies in exactly one band, the one
/// numbered `y / rows_per_band`; and their pixel ranges follow each other
/// from the start of the buffer to its end, so that workers write disjoint
/// slices that together fill it.
pub proof fn lemma_bands_tile_image(res: Resolution, rows_per_band: nat, y: int, i: nat)
    requires
        res.wf(),
        rows_per_band > 0,
        0 <= y < res.height,
        i < band_count(res.height as nat, rows_per_band),
    ensures
        (y / rows_per_band as int) < band_count(res.height as nat, rows_per_band),
        band_holds_row(band_at(res, rows_per_band, (y / rows_per_band as int) as nat), y),
        band_holds_row(band_at(res, rows_per_band, i), y) ==> i == y / rows_per_band as int,
        band_at(res, rows_per_band, 0).start == 0,
        i + 1 < band_count(res.height as nat, rows_per_band) ==> band_at(res, rows_per_band, i).start
            + band_at(res, rows_per_band, i).len == band_at(res, rows_per_band, i + 1).start,
        i + 1 == band_count(res.height as nat, rows_per_band) ==> band_at(res, rows_per_band, i).start
            + band_at(res, rows_per_band, i).len == res.width * res.height,
{
    let h = res.height as int;
    let w = res.width as int;
    let k = rows_per_band as int;
    let q = y / k;
    let m = y % k;
    assert(y == q * k + m && 0 <= m < k && 0 <= q) by (nonlinear_arith)
        requires
            k > 0,
            y >= 0,
            q == y / k,
            m == y % k,
    ;
    lemma_band_count_bounds(h, k);
    assert(q < band_count(h as nat, k as nat)) by (nonlinear_arith)
        requires
            y == q * k + m,
            0 <= m < k,
            y < h,
            h <= k * band_count(h as nat, k as nat),
            k > 0,
    ;
    lemma_band_shape(res, rows_per_band, q as nat);
    lemma_band_shape(res, rows_per_band, i);
    assert(q * k <= y) by (nonlinear_arith)
        requires
            y == q * k + m,
            0 <= m,
    ;
    if band_holds_row(band_at(res, rows_per_band, i), y) {
        assert(i == q) by (nonlinear_arith)
            requires
                i * k <= y,
                y < i * k + k,
                y == q * k + m,
                0 <= m < k,
        ;
    }
    assert(0 * k == 0) by (nonlinear_arith);
    if i + 1 < band_count(h as nat, k as nat) {
        lemma_band_shape(res, rows_per_band, i + 1);
        assert((i + 1) * k == i * k + k) by (nonlinear_arith);
        lemma_band_starts_inside(h, k, (i + 1) as int);
        assert((i * k + k) * w == i * k * w + k * w) by (nonlinear_arith);
    } else {
        assert(k * (i + 1) == i * k + k) by (nonlinear_arith);
        let rows = band_at(res, rows_per_band, i).rows as int;
        assert(i * k + rows == h);
        assert(i * k * w + rows * w == w * h) by (nonlinear_arith)
            requires
                i * k + rows == h,
        ;
    }
    lemma_band_shape(res, rows_per_band, 0);
    assert(0 * k * w == 0) by (nonlinear_arith);
}

/// `band_count` bands of `rows_per_band` rows reach the top row, and one
/// fewer do not.
proof fn lemma_band_count_bounds(h: int, k: int)
    requires
        h >= 0,
        k > 0,
    ensures
        h <= k * band_count(h as nat, k as nat),
        k * band_count(h as nat, k as nat) < h + k,
{
    let q = h / k;
    let m = h % k;
    assert(h == q * k + m && 0 <= m < k) by (nonlinear_arith)
        requires
            k > 0,
            q == h / k,
            m == h % k,
    ;
    if m == 0 {
        assert(k * q == q * k) by (nonlinear_arith);
    } else {
        assert(k * (q + 1) == q * k + k) by (nonlinear_arith);
    }
}

/// Band `i` starts at row `i * rows_per_band` and holds `rows_per_band` rows,
/// or the rows left when fewer are; its fields are those numbers, untruncated.
proof fn lemma_band_shape(res: Resolution, rows_per_band: nat, i: nat)
    requires
        res.wf(),
        rows_per_band > 0,
        i < band_count(res.height as nat, rows_per_band),
    ensures
        band_at(res, rows_per_band, i).first_row == i * rows_per_band,
        band_at(res, rows_per_band, i).rows == if i * rows_per_band + rows_per_band <= res.height {
            rows_per_band as int
        } else {
            res.height - i * rows_per_band
        },
        band_at(res, rows_per_band, i).rows > 0,
        band_at(res, rows_per_band, i).start == i * rows_per_band * res.width,
        band_at(res, rows_per_band, i).len == band_at(res, rows_per_band, i).rows * res.width,
{
    let h = res.height as int;
    let w = res.width as int;
    let k = rows_per_band as int;
    lemma_band_starts_inside(h, k, i as int);
    let first = i * k;
    let rows = if first + k <= h {
        k
    } else {
        h - first
    };
    lemma_rows_fit(first, h, w);
    lemma_rows_fit(rows, h, w);
}

} // verus!
