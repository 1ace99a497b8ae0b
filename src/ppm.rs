use vstd::prelude::*;
use crate::image::Resolution;

verus! {

/// An 8-bit color, one channel per byte.
#[derive(Clone, Copy, Debug, PartialEq, Eq, Structural)]
pub struct Rgb8 {
    pub r: u8,
    pub g: u8,
    pub b: u8,
}

/// ASCII of the digit `d`.
pub open spec fn digit(d: nat) -> u8 {
    (48 + d % 10) as u8
}

/// The decimal digits of `n`, most significant first, without leading zeros.
pub open spec fn decimal(n: nat) -> Seq<u8>
    decreases n,
{
    if n < 10 {
        seq![digit(n)]
    } else {
        decimal(n / 10) + seq![digit(n % 10)]
    }
}

/// The three header lines: `P3`, `<width> <height>`, `255`.
pub open spec fn header(res: Resolution) -> Seq<u8> {
    seq![80u8, 51u8, 10u8] + decimal(res.width as nat) + seq![32u8] + decimal(res.height as nat)
        + seq![10u8, 50u8, 53u8, 53u8, 10u8]
}

/// One pixel's line: its three channels, space-separated.
pub open spec fn pixel_line(p: Rgb8) -> Seq<u8> {
    decimal(p.r as nat) + seq![32u8] + decimal(p.g as nat) + seq![32u8] + decimal(p.b as nat)
        + seq![10u8]
}

/// The lines of the first `n` pixels of row `y`, left to right.
pub open spec fn row_text(width: nat, pixels: Seq<Rgb8>, y: nat, n: nat) -> Seq<u8>
    decreases n,
{
    if n == 0 {
        seq![]
    } else {
        row_text(width, pixels, y, (n - 1) as nat) + pixel_line(pixels[y * width + n - 1])
    }
}

/// The lines of the top `m` rows, top row first.
pub open spec fn rows_text(res: Resolution, pixels: Seq<Rgb8>, m: nat) -> Seq<u8>
    decreases m,
{
    if m == 0 {
        seq![]
    } else {
        rows_text(res, pixels, (m - 1) as nat) + row_text(
            res.width as nat,
            pixels,
            (res.height - m) as nat,
            res.width as nat,
        )
    }
}

/// The image as plain-text PPM: the header, then one line per pixel, rows from
/// the top (`y = height - 1`) down to the bottom, each left to right.
pub open spec fn ppm_text(res: Resolution, pixels: Seq<Rgb8>) -> Seq<u8> {
    header(res) + rows_text(res, pixels, res.height as nat)
}

/// Appends the decimal digits of `n`.
fn push_decimal(out: &mut Vec<u8>, n: u64)
    ensures
        final(out)@ == old(out)@ + decimal(n as nat),
    decreases n,
{
    if n >= 10 {
        push_decimal(out, n / 10);
    }
    out.push(48 + (n % 10) as u8);
    proof {
        assert(out@ =~= old(out)@ + decimal(n as nat));
    }
}

/// Appends one pixel's line.
fn push_pixel_line(out: &mut Vec<u8>, p: Rgb8)
    ensures
        final(out)@ == old(out)@ + pixel_line(p),
{
    push_decimal(out, p.r as u64);
    out.push(32);
    push_decimal(out, p.g as u64);
    out.push(32);
    push_decimal(out, p.b as u64);
    out.push(10);
    assert(out@ =~= old(out)@ + pixel_line(p));
}

/// Writes the pixel buffer as plain-text PPM. `pixels` is row-major with row 0
/// at the bottom, so pixel `(x, y)` is entry `y * width + x`.
pub fn ppm(res: Resolution, pixels: &Vec<Rgb8>) -> (out: Vec<u8>)
    requires
        res.wf(),
        pixels@.len() == res.width * res.height,
    ensures
        out@ == ppm_text(res, pixels@),
{
    let w = res.width;
    let h = res.height;
    let mut out: Vec<u8> = Vec::new();
    out.push(80);
    out.push(51);
    out.push(10);
    push_decimal(&mut out, w as u64);
    out.push(32);
    push_decimal(&mut out, h as u64);
    out.push(10);
    out.push(50);
    out.push(53);
    out.push(53);
    out.push(10);
    assert(out@ =~= header(res));
    for j in 0..h
        invariant
            w == res.width,
            h == res.height,
            res.wf(),
            pixels@.len() == w * h,
            out@ == header(res) + rows_text(res, pixels@, j as nat),
    {
        let y = h - 1 - j;
        for x in 0..w
            invariant
                w == res.width,
                h == res.height,
                res.wf(),
                pixels@.len() == w * h,
                y < h,
                y == h - 1 - j,
                out@ == header(res) + rows_text(res, pixels@, j as nat) + row_text(
                    w as nat,
                    pixels@,
                    y as nat,
                    x as nat,
                ),
        {
            proof {
                crate::image::lemma_index_in_grid(x as int, y as int, w as int, h as int);
            }
            let i = y * w + x;
            push_pixel_line(&mut out, pixels[i]);
            assert(out@ =~= header(res) + rows_text(res, pixels@, j as nat) + row_text(
                w as nat,
                pixels@,
                y as nat,
                (x + 1) as nat,
            ));
        }
        assert(out@ =~= header(res) + rows_text(res, pixels@, (j + 1) as nat));
    }
    out
}

} // verus!
