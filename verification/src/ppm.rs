//! Plain-text PPM serialization of a rendered pixel buffer.
//!
//! The image format is `P3`: a three-line header, then one line per pixel
//! row holding a space-separated `r g b` triplet per pixel, every channel
//! gamma-corrected to a byte.

use vstd::prelude::*;
use crate::vec3::{Vec3, spec_channel_byte, channel_byte};

verus! {

/// 255 to the sixth power: the constant of the gamma comparison.
pub const POW255_6: u128 = 274_941_996_890_625;

/// The fifth power.
pub open spec fn pow5(v: int) -> int {
    v * v * v * v * v
}

/// The eleventh power.
pub open spec fn pow11(v: int) -> int {
    v * v * v * v * v * v * v * v * v * v * v
}

/// Output byte `o` is bright enough for input byte `b` under the gamma
/// exponent five elevenths: `(o/255)^11 >= (b/255)^5`, cross-multiplied.
pub open spec fn gamma_ok(b: int, o: int) -> bool {
    pow11(o) >= pow5(b) * POW255_6 as int
}

/// The least output byte from `o` up that is bright enough, or 255.
pub open spec fn gamma_from(b: int, o: int) -> int
    decreases 255 - o,
{
    if o >= 255 {
        255
    } else if gamma_ok(b, o) {
        o
    } else {
        gamma_from(b, o + 1)
    }
}

/// The gamma-corrected output byte for input byte `b`: the least `o` with
/// `(o/255)^11 >= (b/255)^5`, i.e. `255 * (b/255)^(5/11)` rounded up.
pub open spec fn spec_gamma(b: int) -> int {
    gamma_from(b, 0)
}

/// The fifth power of a byte-sized value.
fn pow5_u128(v: u128) -> (r: u128)
    requires
        v <= 255,
    ensures
        r == pow5(v as int),
        r <= 1_078_203_909_375,
{
    proof {
        assert((v as int) * (v as int) <= 65025) by (nonlinear_arith)
            requires
                0 <= v <= 255,
        ;
    }
    let v2 = v * v;
    proof {
        assert((v2 as int) * (v2 as int) <= 4_228_250_625int) by (nonlinear_arith)
            requires
                0 <= v2 <= 65025,
        ;
    }
    let v4 = v2 * v2;
    proof {
        assert((v4 as int) * (v as int) <= 1_078_203_909_375int) by (nonlinear_arith)
            requires
                0 <= v4 <= 4_228_250_625i128 as int,
                0 <= v <= 255,
        ;
    }
    let r = v4 * v;
    proof {
        assert(r == pow5(v as int) && r >= 0) by (nonlinear_arith)
            requires
                v2 == (v as int) * (v as int),
                v4 == (v2 as int) * (v2 as int),
                r == (v4 as int) * (v as int),
                v >= 0,
        ;
    }
    r
}

/// The eleventh power of a byte-sized value.
fn pow11_u128(v: u128) -> (r: u128)
    requires
        v <= 255,
    ensures
        r == pow11(v as int),
        r <= 296_443_535_898_840_969_287_109_375,
{
    proof {
        assert((v as int) * (v as int) <= 65025) by (nonlinear_arith)
            requires
                0 <= v <= 255,
        ;
    }
    let v2 = v * v;
    proof {
        assert((v2 as int) * (v2 as int) <= 4_228_250_625int) by (nonlinear_arith)
            requires
                0 <= v2 <= 65025,
        ;
    }
    let v4 = v2 * v2;
    proof {
        assert((v4 as int) * (v4 as int) <= 17_878_103_347_812_890_625int) by (nonlinear_arith)
            requires
                0 <= v4 <= 4_228_250_625i128 as int,
        ;
    }
    let v8 = v4 * v4;
    proof {
        assert((v8 as int) * (v2 as int) <= 1_162_523_670_191_533_212_890_625int)
            by (nonlinear_arith)
            requires
                0 <= v8 <= 17_878_103_347_812_890_625i128 as int,
                0 <= v2 <= 65025,
        ;
    }
    let v10 = v8 * v2;
    proof {
        assert((v10 as int) * (v as int) <= 296_443_535_898_840_969_287_109_375int)
            by (nonlinear_arith)
            requires
                0 <= v10 <= 1_162_523_670_191_533_212_890_625int,
                0 <= v <= 255,
        ;
    }
    let r = v10 * v;
    proof {
        assert(r == pow11(v as int) && r >= 0) by (nonlinear_arith)
            requires
                v2 == (v as int) * (v as int),
                v4 == (v2 as int) * (v2 as int),
                v8 == (v4 as int) * (v4 as int),
                v10 == (v8 as int) * (v2 as int),
                r == (v10 as int) * (v as int),
                v >= 0,
        ;
    }
    r
}

/// The gamma-corrected output byte for an input byte.
pub fn gamma_byte(b: u8) -> (r: u8)
    ensures
        r == spec_gamma(b as int),
{
    let target = pow5_u128(b as u128) * (POW255_6 as u128);
    let mut o: u16 = 0;
    while o < 255
        invariant
            o <= 255,
            target == pow5(b as int) * POW255_6 as int,
            spec_gamma(b as int) == gamma_from(b as int, o as int),
        decreases 255 - o,
    {
        if pow11_u128(o as u128) >= target {
            return o as u8;
        }
        o = o + 1;
    }
    proof {
        assert(gamma_from(b as int, 255) == 255);
    }
    255
}

/// The gamma output is bright enough - unless even full brightness is not -
/// and no smaller output byte is: `spec_gamma` is the least solution of the
/// gamma inequality.
pub proof fn lemma_gamma_least(b: int)
    ensures
        gamma_ok(b, spec_gamma(b)) || spec_gamma(b) == 255,
        forall|o: int| 0 <= o < spec_gamma(b) ==> !#[trigger] gamma_ok(b, o),
{
    lemma_gamma_from_least(b, 0);
}

proof fn lemma_gamma_from_least(b: int, start: int)
    requires
        0 <= start <= 255,
    ensures
        gamma_ok(b, gamma_from(b, start)) || gamma_from(b, start) == 255,
        forall|o: int| start <= o < gamma_from(b, start) ==> !#[trigger] gamma_ok(b, o),
    decreases 255 - start,
{
    if start < 255 && !gamma_ok(b, start) {
        lemma_gamma_from_least(b, start + 1);
    }
}

/// The gamma curve maps bytes to bytes.
pub proof fn lemma_gamma_byte_range(b: int)
    ensures
        0 <= spec_gamma(b) <= 255,
{
    lemma_gamma_from_range(b, 0);
}

proof fn lemma_gamma_from_range(b: int, o: int)
    requires
        0 <= o <= 255,
    ensures
        o <= gamma_from(b, o) <= 255,
    decreases 255 - o,
{
    if o < 255 && !gamma_ok(b, o) {
        lemma_gamma_from_range(b, o + 1);
    }
}

/// The decimal digits of a non-negative number, most significant first.
pub open spec fn dec_spec(n: int) -> Seq<u8>
    decreases n,
{
    if n < 0 {
        Seq::empty()
    } else if n < 10 {
        seq![(48 + n) as u8]
    } else {
        dec_spec(n / 10).push((48 + n % 10) as u8)
    }
}

/// Append the decimal digits of `n`.
pub fn push_dec(out: &mut Vec<u8>, n: u32)
    ensures
        final(out)@ == old(out)@ + dec_spec(n as int),
    decreases n,
{
    let ghost pre = out@;
    if n >= 10 {
        push_dec(out, n / 10);
        let digit = 48 + (n % 10) as u8;
        out.push(digit);
        proof {
            assert(out@ =~= pre + dec_spec(n as int));
        }
    } else {
        let digit = 48 + n as u8;
        out.push(digit);
        proof {
            assert(out@ =~= pre + dec_spec(n as int));
        }
    }
}

/// Every byte of a decimal rendering is a digit.
proof fn lemma_dec_digits(n: int)
    ensures
        forall|k: int| 0 <= k < dec_spec(n).len() ==> 48 <= #[trigger] dec_spec(n)[k] <= 57,
        n >= 0 ==> dec_spec(n).len() >= 1,
    decreases n,
{
    if n >= 10 {
        lemma_dec_digits(n / 10);
        assert(0 <= n % 10 < 10);
    }
}

/// One pixel as `r g b`, gamma-corrected.
pub open spec fn triplet_spec(c: Vec3) -> Seq<u8> {
    dec_spec(spec_gamma(spec_channel_byte(c.x as int) as int)) + seq![32u8] + dec_spec(
        spec_gamma(spec_channel_byte(c.y as int) as int),
    ) + seq![32u8] + dec_spec(spec_gamma(spec_channel_byte(c.z as int) as int))
}

/// The bytes of row `y` from pixel `x` on: a separating space before every
/// pixel but the first, a newline after the last.
pub open spec fn row_rest(pixels: Seq<Vec3>, w: int, y: int, x: int) -> Seq<u8>
    decreases w - x,
{
    if x >= w {
        seq![10u8]
    } else {
        (if x > 0 {
            seq![32u8]
        } else {
            Seq::empty()
        }) + triplet_spec(pixels[y * w + x]) + row_rest(pixels, w, y, x + 1)
    }
}

/// The bytes of all rows from `y` on.
pub open spec fn rows_rest(pixels: Seq<Vec3>, w: int, h: int, y: int) -> Seq<u8>
    decreases h - y,
{
    if y >= h {
        Seq::empty()
    } else {
        row_rest(pixels, w, y, 0) + rows_rest(pixels, w, h, y + 1)
    }
}

/// The three header lines: `P3`, the dimensions, the channel maximum.
pub open spec fn header_spec(w: int, h: int) -> Seq<u8> {
    seq![80u8, 51u8, 10u8] + dec_spec(w) + seq![32u8] + dec_spec(h) + seq![
        10u8,
        50u8,
        53u8,
        53u8,
        10u8,
    ]
}

/// The whole image file.
pub open spec fn ppm_spec(w: int, h: int, pixels: Seq<Vec3>) -> Seq<u8> {
    header_spec(w, h) + rows_rest(pixels, w, h, 0)
}

/// Serialize a row-major pixel buffer as a plain-text PPM image.
pub fn ppm_bytes(w: u32, h: u32, pixels: &Vec<Vec3>) -> (r: Vec<u8>)
    requires
        pixels@.len() == w as int * h as int,
    ensures
        r@ == ppm_spec(w as int, h as int, pixels@),
{
    let pixel_count = pixels.len();
    let mut out: Vec<u8> = Vec::new();
    out.push(80);
    out.push(51);
    out.push(10);
    push_dec(&mut out, w);
    out.push(32);
    push_dec(&mut out, h);
    out.push(10);
    out.push(50);
    out.push(53);
    out.push(53);
    out.push(10);
    proof {
        assert(out@ =~= header_spec(w as int, h as int));
    }
    let ghost header = out@;
    let mut y: u32 = 0;
    while y < h
        invariant
            pixels@.len() == w as int * h as int,
            pixels@.len() <= usize::MAX,
            y <= h,
            out@ + rows_rest(pixels@, w as int, h as int, y as int) =~= ppm_spec(
                w as int,
                h as int,
                pixels@,
            ),
        decreases h - y,
    {
        let ghost row_start = out@;
        let mut x: u32 = 0;
        while x < w
            invariant
                pixels@.len() == w as int * h as int,
                pixels@.len() <= usize::MAX,
                y < h,
                x <= w,
                row_start + row_rest(pixels@, w as int, y as int, 0) + rows_rest(
                    pixels@,
                    w as int,
                    h as int,
                    y as int + 1,
                ) =~= ppm_spec(w as int, h as int, pixels@),
                out@ + row_rest(pixels@, w as int, y as int, x as int) =~= row_start + row_rest(
                    pixels@,
                    w as int,
                    y as int,
                    0,
                ),
            decreases w - x,
        {
            proof {
                assert(0 <= (y as int) * (w as int) + (x as int) && (y as int) * (w as int) + (
                x as int) < pixels@.len()) by (nonlinear_arith)
                    requires
                        x < w,
                        y < h,
                        pixels@.len() == w as int * h as int,
                ;
            }
            let ghost before = out@;
            if x > 0 {
                out.push(32);
            }
            let idx = (y as usize) * (w as usize) + (x as usize);
            proof {
                assert(idx == y as int * w as int + x as int) by (nonlinear_arith)
                    requires
                        idx == (y as usize) as int * (w as usize) as int + (x as usize) as int,
                        x < w,
                        y < h,
                ;
            }
            let c = pixels[idx];
            push_triplet(&mut out, c);
            proof {
                assert(out@ =~= before + (if x as int > 0 {
                    seq![32u8]
                } else {
                    Seq::<u8>::empty()
                }) + triplet_spec(pixels@[y as int * w as int + x as int]));
                assert(out@ + row_rest(pixels@, w as int, y as int, x as int + 1) =~= row_start
                    + row_rest(pixels@, w as int, y as int, 0));
            }
            x = x + 1;
        }
        out.push(10);
        proof {
            assert(out@ =~= row_start + row_rest(pixels@, w as int, y as int, 0));
            assert(out@ + rows_rest(pixels@, w as int, h as int, y as int + 1) =~= ppm_spec(
                w as int,
                h as int,
                pixels@,
            ));
        }
        y = y + 1;
    }
    proof {
        assert(out@ =~= ppm_spec(w as int, h as int, pixels@));
    }
    out
}

/// Append one pixel's gamma-corrected `r g b` triplet.
fn push_triplet(out: &mut Vec<u8>, c: Vec3)
    ensures
        final(out)@ == old(out)@ + triplet_spec(c),
{
    let ghost pre = out@;
    let gr = gamma_byte(channel_byte(c.x));
    let gg = gamma_byte(channel_byte(c.y));
    let gb = gamma_byte(channel_byte(c.z));
    push_dec(out, gr as u32);
    out.push(32);
    push_dec(out, gg as u32);
    out.push(32);
    push_dec(out, gb as u32);
    proof {
        assert(out@ =~= pre + triplet_spec(c));
    }
}

/// The number of separator bytes (spaces and newlines) of a byte sequence.
pub open spec fn sep_count(s: Seq<u8>) -> int
    decreases s.len(),
{
    if s.len() == 0 {
        0
    } else {
        (if s[0] == 32 || s[0] == 10 {
            1int
        } else {
            0int
        }) + sep_count(s.drop_first())
    }
}

/// The empty sequence has no separators.
proof fn lemma_sep_count_empty()
    ensures
        sep_count(Seq::<u8>::empty()) == 0,
{
}

/// One byte counts as one separator exactly when it is a space or newline.
proof fn lemma_sep_count_one(b: u8)
    ensures
        sep_count(seq![b]) == (if b == 32 || b == 10 {
            1int
        } else {
            0int
        }),
{
    assert(seq![b].drop_first() =~= Seq::<u8>::empty());
    lemma_sep_count_empty();
    assert(seq![b].len() == 1 && seq![b][0] == b);
}

/// Separator counting distributes over concatenation.
proof fn lemma_sep_count_add(a: Seq<u8>, b: Seq<u8>)
    ensures
        sep_count(a + b) == sep_count(a) + sep_count(b),
    decreases a.len(),
{
    if a.len() == 0 {
        assert(a + b =~= b);
    } else {
        lemma_sep_count_add(a.drop_first(), b);
        assert((a + b).drop_first() =~= a.drop_first() + b);
    }
}

/// A decimal rendering holds no separators.
proof fn lemma_sep_count_dec(n: int)
    ensures
        sep_count(dec_spec(n)) == 0,
    decreases n,
{
    if n < 0 {
        lemma_sep_count_empty();
    } else if n < 10 {
        lemma_sep_count_one((48 + n) as u8);
    } else {
        lemma_sep_count_dec(n / 10);
        let s = dec_spec(n / 10);
        let d = ((48 + n % 10) as u8);
        assert(s.push(d) =~= s + seq![d]);
        lemma_sep_count_add(s, seq![d]);
        assert(0 <= n % 10 < 10);
        lemma_sep_count_one(d);
    }
}

/// A triplet holds exactly its two inner spaces.
proof fn lemma_sep_count_triplet(c: Vec3)
    ensures
        sep_count(triplet_spec(c)) == 2,
{
    let d1 = dec_spec(spec_gamma(spec_channel_byte(c.x as int) as int));
    let d2 = dec_spec(spec_gamma(spec_channel_byte(c.y as int) as int));
    let d3 = dec_spec(spec_gamma(spec_channel_byte(c.z as int) as int));
    lemma_sep_count_dec(spec_gamma(spec_channel_byte(c.x as int) as int));
    lemma_sep_count_dec(spec_gamma(spec_channel_byte(c.y as int) as int));
    lemma_sep_count_dec(spec_gamma(spec_channel_byte(c.z as int) as int));
    lemma_sep_count_one(32u8);
    lemma_sep_count_add(d1, seq![32u8]);
    lemma_sep_count_add(d1 + seq![32u8], d2);
    lemma_sep_count_add(d1 + seq![32u8] + d2, seq![32u8]);
    lemma_sep_count_add(d1 + seq![32u8] + d2 + seq![32u8], d3);
}

/// A row from pixel `x` on holds three separators per remaining pixel, plus
/// its leading space when `x > 0`.
proof fn lemma_sep_count_row(pixels: Seq<Vec3>, w: int, y: int, x: int)
    requires
        1 <= w,
        0 <= x <= w,
    ensures
        sep_count(row_rest(pixels, w, y, x)) == 3 * (w - x) + (if x > 0 {
            1int
        } else {
            0int
        }),
    decreases w - x,
{
    if x >= w {
        lemma_sep_count_one(10u8);
    } else {
        lemma_sep_count_row(pixels, w, y, x + 1);
        let lead: Seq<u8> = if x > 0 {
            seq![32u8]
        } else {
            Seq::empty()
        };
        if x > 0 {
            lemma_sep_count_one(32u8);
        } else {
            lemma_sep_count_empty();
        }
        lemma_sep_count_triplet(pixels[y * w + x]);
        lemma_sep_count_add(lead, triplet_spec(pixels[y * w + x]));
        lemma_sep_count_add(lead + triplet_spec(pixels[y * w + x]), row_rest(pixels, w, y, x + 1));
    }
}

/// All rows from `y` on hold three separators per pixel and one newline per
/// row.
proof fn lemma_sep_count_rows(pixels: Seq<Vec3>, w: int, h: int, y: int)
    requires
        1 <= w,
        0 <= y <= h,
    ensures
        sep_count(rows_rest(pixels, w, h, y)) == (h - y) * (3 * w),
    decreases h - y,
{
    if y < h {
        lemma_sep_count_rows(pixels, w, h, y + 1);
        lemma_sep_count_row(pixels, w, y, 0);
        lemma_sep_count_add(row_rest(pixels, w, y, 0), rows_rest(pixels, w, h, y + 1));
        assert((h - y) * (3 * w) == (3 * w) + (h - y - 1) * (3 * w)) by (nonlinear_arith);
    } else {
        lemma_sep_count_empty();
        assert((h - y) * (3 * w) == 0) by (nonlinear_arith)
            requires
                y >= h,
                0 <= y <= h,
        ;
    }
}

/// Every number of the image body is followed by exactly one separator (a
/// space, or the newline ending its row), so the serialized image holds
/// three numbers - one `r g b` triplet - per pixel: with
/// `pixels.len() == w * h` its separator count is the four of the header
/// plus `3 * w * h`.
pub proof fn lemma_ppm_triplet_count(w: int, h: int, pixels: Seq<Vec3>)
    requires
        1 <= w,
        0 <= h,
        pixels.len() == w * h,
    ensures
        sep_count(ppm_spec(w, h, pixels)) == 4 + 3 * w * h,
{
    lemma_sep_count_rows(pixels, w, h, 0);
    assert(h * (3 * w) == 3 * w * h) by (nonlinear_arith);
    lemma_sep_count_header(w, h);
    lemma_sep_count_add(header_spec(w, h), rows_rest(pixels, w, h, 0));
}

/// The header holds exactly four separators: its three newlines and the
/// space between the dimensions.
proof fn lemma_sep_count_header(w: int, h: int)
    ensures
        sep_count(header_spec(w, h)) == 4,
{
    lemma_sep_count_dec(w);
    lemma_sep_count_dec(h);
    lemma_sep_count_one(80u8);
    lemma_sep_count_one(51u8);
    lemma_sep_count_one(10u8);
    lemma_sep_count_one(32u8);
    lemma_sep_count_one(50u8);
    lemma_sep_count_one(53u8);
    assert(sep_count(seq![80u8, 51u8, 10u8]) == 1) by {
        lemma_sep_count_add(seq![80u8], seq![51u8]);
        lemma_sep_count_add(seq![80u8] + seq![51u8], seq![10u8]);
        assert(seq![80u8] + seq![51u8] + seq![10u8] =~= seq![80u8, 51u8, 10u8]);
    }
    assert(sep_count(seq![10u8, 50u8, 53u8, 53u8, 10u8]) == 2) by {
        lemma_sep_count_add(seq![10u8], seq![50u8]);
        lemma_sep_count_add(seq![10u8] + seq![50u8], seq![53u8]);
        lemma_sep_count_add(seq![10u8] + seq![50u8] + seq![53u8], seq![53u8]);
        lemma_sep_count_add(seq![10u8] + seq![50u8] + seq![53u8] + seq![53u8], seq![10u8]);
        assert(seq![10u8] + seq![50u8] + seq![53u8] + seq![53u8] + seq![10u8] =~= seq![
            10u8,
            50u8,
            53u8,
            53u8,
            10u8,
        ]);
    }
    lemma_sep_count_add(seq![80u8, 51u8, 10u8], dec_spec(w));
    lemma_sep_count_add(seq![80u8, 51u8, 10u8] + dec_spec(w), seq![32u8]);
    lemma_sep_count_add(seq![80u8, 51u8, 10u8] + dec_spec(w) + seq![32u8], dec_spec(h));
    lemma_sep_count_add(
        seq![80u8, 51u8, 10u8] + dec_spec(w) + seq![32u8] + dec_spec(h),
        seq![10u8, 50u8, 53u8, 53u8, 10u8],
    );
}

/// The second line of the serialized image is exactly the width, a space,
/// and the height, and ends at the following newline: no digit of the
/// dimensions is a newline.
pub proof fn lemma_ppm_second_line(w: int, h: int, pixels: Seq<Vec3>)
    requires
        0 <= w,
        0 <= h,
    ensures
        ({
            let line = dec_spec(w) + seq![32u8] + dec_spec(h);
            let s = ppm_spec(w, h, pixels);
            &&& s[2] == 10
            &&& s.subrange(3, 3 + line.len() as int) == line
            &&& s[3 + line.len() as int] == 10
            &&& forall|k: int| 0 <= k < line.len() ==> #[trigger] line[k] != 10
        }),
{
    let line = dec_spec(w) + seq![32u8] + dec_spec(h);
    let s = ppm_spec(w, h, pixels);
    lemma_dec_digits(w);
    lemma_dec_digits(h);
    assert(s.subrange(3, 3 + line.len() as int) =~= line);
    assert(forall|k: int| 0 <= k < line.len() ==> #[trigger] line[k] != 10) by {
        assert(forall|k: int|
            0 <= k < dec_spec(w).len() ==> #[trigger] line[k] == dec_spec(w)[k]);
        assert(line[dec_spec(w).len() as int] == 32u8);
        assert(forall|k: int|
            dec_spec(w).len() + 1 <= k < line.len() ==> #[trigger] line[k] == dec_spec(h)[k
                - dec_spec(w).len() - 1]);
    }
}

} // verus!
