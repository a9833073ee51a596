//! The tile compositor: lays a code sequence out as a grid of square tiles
//! and fills an RGB raster buffer, asking the stroke rule engine for every
//! pixel whether it is foreground or background.

use vstd::prelude::*;

use vstd::arithmetic::div_mod::lemma_fundamental_div_mod;
use vstd::arithmetic::div_mod::lemma_fundamental_div_mod_converse;
use vstd::arithmetic::div_mod::lemma_mod_pos_bound;

use crate::encoder::GlyphError;
use crate::stroke::is_stroke;
use crate::stroke::check_stroke;
use crate::stroke::Config;

verus! {

/// Channel value of a stroke pixel: black.
pub const STROKE_CHANNEL: u8 = 0;

/// Channel value of a background pixel: white.
pub const BACKGROUND_CHANNEL: u8 = 255;

/// Bytes per pixel: one each for red, green and blue.
pub const PIXEL_BYTES: usize = 3;

/// Number of tile columns for `n` codes wrapped at `max_columns`.
pub open spec fn grid_cols(n: int, max_columns: int) -> int {
    vstd::math::min(n, max_columns)
}

/// Number of tile rows for `n` codes wrapped at `max_columns`: the number
/// of columns divided into `n`, rounded up.
pub open spec fn grid_rows(n: int, max_columns: int) -> int {
    (n + grid_cols(n, max_columns) - 1) / grid_cols(n, max_columns)
}

/// Width in pixels of the image rendering `n` codes.
pub open spec fn image_width(n: int, c: Config) -> int {
    grid_cols(n, c.max_columns as int) * c.tile_size
}

/// Height in pixels of the image rendering `n` codes.
pub open spec fn image_height(n: int, c: Config) -> int {
    grid_rows(n, c.max_columns as int) * c.tile_size
}

/// Whether full-image pixel `(px, py)` is a stroke: the tile it falls in
/// holds a code of the sequence, and the stroke rule engine reports a
/// stroke at the pixel's tile-local coordinates.
pub open spec fn pixel_is_stroke(
    codes: Seq<(u8, u8)>,
    c: Config,
    cols: int,
    px: int,
    py: int,
) -> bool {
    let ts = c.tile_size as int;
    let ti = px / ts + (py / ts) * cols;
    0 <= ti < codes.len() && is_stroke(c, codes[ti], px % ts, py % ts)
}

/// Byte `k` of the raster buffer: the buffer is row-major with three
/// bytes per pixel, a stroke pixel is black and everything else white.
pub open spec fn pixel_byte(codes: Seq<(u8, u8)>, c: Config, cols: int, width: int, k: int) -> u8 {
    let p = k / PIXEL_BYTES as int;
    if pixel_is_stroke(codes, c, cols, p % width, p / width) {
        STROKE_CHANNEL
    } else {
        BACKGROUND_CHANNEL
    }
}

/// The full contents of the raster buffer rendering `codes`: a pure
/// function of the code sequence and the style alone.
pub open spec fn render_bytes(codes: Seq<(u8, u8)>, c: Config) -> Seq<u8> {
    let cols = grid_cols(codes.len() as int, c.max_columns as int);
    let width = image_width(codes.len() as int, c);
    let height = image_height(codes.len() as int, c);
    Seq::new((PIXEL_BYTES as int * width * height) as nat, |k: int| pixel_byte(codes, c, cols, width, k))
}

/// A fully populated RGB raster image: `pixels` holds the rows top to
/// bottom, three bytes per pixel.
pub struct RasterBuffer {
    /// Width in pixels.
    pub width: usize,
    /// Height in pixels.
    pub height: usize,
    /// The pixel bytes, row-major, three per pixel.
    pub pixels: Vec<u8>,
}

impl RasterBuffer {
    /// The byte buffer covers exactly the advertised dimensions.
    pub open spec fn wf(&self) -> bool {
        self.pixels@.len() == PIXEL_BYTES * self.width * self.height
    }
}

/// The grid layout wraps `n` codes at `max_columns`: as many columns as
/// codes up to the wrap width, and exactly as many rows as the columns
/// need to hold all `n` codes (the rounded-up quotient).
pub proof fn lemma_grid_dimensions(n: int, max_columns: int)
    requires
        1 <= n,
        1 <= max_columns,
    ensures
        grid_cols(n, max_columns) == vstd::math::min(n, max_columns),
        1 <= grid_cols(n, max_columns) <= max_columns,
        1 <= grid_rows(n, max_columns),
        (grid_rows(n, max_columns) - 1) * grid_cols(n, max_columns) < n,
        n <= grid_rows(n, max_columns) * grid_cols(n, max_columns),
{
    let c = grid_cols(n, max_columns);
    let q = grid_rows(n, max_columns);
    lemma_fundamental_div_mod(n + c - 1, c);
    lemma_mod_pos_bound(n + c - 1, c);
    let rr = (n + c - 1) % c;
    assert(n + c - 1 == c * q + rr);
    assert(q * c == n + c - 1 - rr) by (nonlinear_arith)
        requires n + c - 1 == c * q + rr;
    assert((q - 1) * c == q * c - c) by (nonlinear_arith);
    assert(q * c >= n);
    assert((q - 1) * c < n);
    assert(q >= 1) by (nonlinear_arith)
        requires q * c >= n, n >= 1, c >= 1;
}

/// Render the symbolic codes as a raster image: tiles of edge
/// `config.tile_size` laid out row-major, wrapped at `config.max_columns`
/// columns. Every byte of the result is pinned: a pixel is black exactly
/// when its tile holds a code and the stroke rule engine fires, white
/// otherwise. An empty code sequence is rejected.
pub fn make_image(text: &Vec<(u8, u8)>, config: &Config) -> (r: Result<RasterBuffer, GlyphError>)
    requires
        config.wf(),
        text@.len() > 0 ==> (PIXEL_BYTES as int) * image_width(text@.len() as int, *config)
            * image_height(text@.len() as int, *config) <= usize::MAX,
    ensures
        text@.len() == 0 <==> r == Err::<RasterBuffer, GlyphError>(GlyphError::EmptyInput),
        text@.len() > 0 ==> r is Ok && {
            let b = r->Ok_0;
            &&& b.wf()
            &&& b.width == image_width(text@.len() as int, *config)
            &&& b.height == image_height(text@.len() as int, *config)
            &&& b.pixels@ == render_bytes(text@, *config)
        },
{
    let n: usize = text.len();
    if n == 0 {
        return Err(GlyphError::EmptyInput);
    }

    let ghost nn = n as int;
    let ghost mc = config.max_columns as int;

    let max_cols: usize = config.max_columns as usize;
    let cols: usize = if n < max_cols {
        n
    } else {
        max_cols
    };
    proof {
        lemma_grid_dimensions(nn, mc);
    }

    proof {
        lemma_fundamental_div_mod(nn, cols as int);
        lemma_mod_pos_bound(nn, cols as int);
        vstd::arithmetic::div_mod::lemma_div_pos_is_pos(nn, cols as int);
        if nn % (cols as int) != 0 {
            assert(nn / (cols as int) < nn) by (nonlinear_arith)
                requires
                    nn == (cols as int) * (nn / (cols as int)) + nn % (cols as int),
                    nn % (cols as int) >= 1,
                    cols >= 1,
                    nn / (cols as int) >= 0;
        }
    }

    // rows = ceiling of n / cols, computed without overflow.
    let rows: usize = n / cols + if n % cols == 0 {
        0
    } else {
        1
    };
    proof {
        let q = nn / (cols as int);
        let rem = nn % (cols as int);
        assert(nn == (cols as int) * q + rem);
        if rem == 0 {
            assert(nn + cols - 1 == q * (cols as int) + (cols - 1)) by (nonlinear_arith)
                requires nn == (cols as int) * q + 0;
            lemma_fundamental_div_mod_converse(nn + cols - 1, cols as int, q, cols - 1);
        } else {
            assert(nn + cols - 1 == (q + 1) * (cols as int) + (rem - 1)) by (nonlinear_arith)
                requires nn == (cols as int) * q + rem;
            lemma_fundamental_div_mod_converse(nn + cols - 1, cols as int, q + 1, rem - 1);
        }
        assert(rows == grid_rows(nn, mc));
    }

    let ts: usize = config.tile_size as usize;
    proof {
        assert(ts >= 2) by (nonlinear_arith)
            requires
                ts == config.tile_size as int,
                config.tile_size % 2 == 0,
                config.tile_size as int / 2 >= 1;
        assert(cols * ts <= (PIXEL_BYTES as int) * (cols * ts) * (rows * ts)
            && rows * ts <= (PIXEL_BYTES as int) * (cols * ts) * (rows * ts)) by (nonlinear_arith)
            requires cols >= 1, rows >= 1, ts >= 2, PIXEL_BYTES == 3;
    }
    let width: usize = cols * ts;
    let height: usize = rows * ts;
    proof {
        assert(width >= 2 && height >= 2) by (nonlinear_arith)
            requires
                width == cols * ts,
                height == rows * ts,
                cols >= 1,
                rows >= 1,
                ts >= 2;
        assert((PIXEL_BYTES as int) * (width as int) * (height as int) == (PIXEL_BYTES as int)
            * (width as int * height as int)) by (nonlinear_arith);
        assert(width as int * height as int <= (PIXEL_BYTES as int) * (width as int)
            * (height as int)) by (nonlinear_arith)
            requires width >= 2, height >= 2;
    }
    let total: usize = PIXEL_BYTES * (width * height);

    let ghost target = render_bytes(text@, *config);
    proof {
        assert(target.len() == total);
    }

    let mut pixels: Vec<u8> = Vec::new();
    let mut py: usize = 0;
    while py < height
        invariant
            py <= height,
            pixels@.len() == PIXEL_BYTES * (py * width),
            PIXEL_BYTES * (py * width) <= total,
            forall|k: int| 0 <= k < pixels@.len() ==> pixels@[k] == target[k],
            config.wf(),
            n == text@.len(),
            1 <= n,
            cols == grid_cols(nn, mc),
            rows == grid_rows(nn, mc),
            ts == config.tile_size,
            width == cols * ts,
            height == rows * ts,
            total == PIXEL_BYTES * (width as int) * (height as int),
            target == render_bytes(text@, *config),
            nn == n as int,
            mc == config.max_columns as int,
        decreases height - py,
    {
        proof {
            assert((py + 1) * width == py * width + width) by (nonlinear_arith);
            assert(PIXEL_BYTES * ((py + 1) * width) <= total) by (nonlinear_arith)
                requires
                    py + 1 <= height,
                    width >= 0,
                    total == PIXEL_BYTES * (width as int) * (height as int),
                    PIXEL_BYTES == 3;
        }
        let mut px: usize = 0;
        while px < width
            invariant
                px <= width,
                py < height,
                pixels@.len() == PIXEL_BYTES * (py * width + px),
                PIXEL_BYTES * (py * width + width) <= total,
                forall|k: int| 0 <= k < pixels@.len() ==> pixels@[k] == target[k],
                config.wf(),
                n == text@.len(),
                1 <= n,
                cols == grid_cols(nn, mc),
                rows == grid_rows(nn, mc),
                ts == config.tile_size,
                width == cols * ts,
                height == rows * ts,
                total == PIXEL_BYTES * (width as int) * (height as int),
                target == render_bytes(text@, *config),
                nn == n as int,
                mc == config.max_columns as int,
            decreases width - px,
        {
            let tx: usize = px / ts;
            let ty: usize = py / ts;
            proof {
                assert(tx < cols && ty < rows) by (nonlinear_arith)
                    requires
                        tx == px as int / ts as int,
                        ty == py as int / ts as int,
                        px < width,
                        py < height,
                        width == cols * ts,
                        height == rows * ts,
                        ts >= 2;
                assert(tx + ty * cols < rows * cols) by (nonlinear_arith)
                    requires tx < cols, ty < rows, cols >= 1;
                assert(rows * cols * (ts * ts) <= total) by (nonlinear_arith)
                    requires
                        total == PIXEL_BYTES * (width as int) * (height as int),
                        width == cols * ts,
                        height == rows * ts,
                        PIXEL_BYTES == 3,
                        cols >= 0,
                        rows >= 0,
                        ts >= 0;
                assert(rows * cols <= rows * cols * (ts * ts)) by (nonlinear_arith)
                    requires ts >= 2, rows >= 1, cols >= 1;
            }
            let ti: usize = tx + ty * cols;
            let lx: u32 = (px % ts) as u32;
            let ly: u32 = (py % ts) as u32;
            proof {
                lemma_mod_pos_bound(px as int, ts as int);
                lemma_mod_pos_bound(py as int, ts as int);
            }
            let stroke_here: bool = if ti < n {
                check_stroke(text[ti], lx, ly, config)
            } else {
                false
            };
            let v: u8 = if stroke_here {
                STROKE_CHANNEL
            } else {
                BACKGROUND_CHANNEL
            };
            let ghost p = py * width + px;
            proof {
                assert(stroke_here == pixel_is_stroke(text@, *config, cols as int, px as int, py as int));
                assert(pixels@.len() + 3 <= total) by (nonlinear_arith)
                    requires
                        pixels@.len() == PIXEL_BYTES * (py * width + px),
                        PIXEL_BYTES * (py * width + width) <= total,
                        px < width,
                        PIXEL_BYTES == 3;
                lemma_fundamental_div_mod_converse(p, width as int, py as int, px as int);
                lemma_fundamental_div_mod_converse(3 * p, 3, p, 0);
                lemma_fundamental_div_mod_converse(3 * p + 1, 3, p, 1);
                lemma_fundamental_div_mod_converse(3 * p + 2, 3, p, 2);
                assert(target[3 * p] == v);
                assert(target[3 * p + 1] == v);
                assert(target[3 * p + 2] == v);
            }
            pixels.push(v);
            pixels.push(v);
            pixels.push(v);
            proof {
                assert(pixels@.len() == PIXEL_BYTES * (py * width + px) + 3);
                assert(PIXEL_BYTES * (py * width + (px + 1)) == PIXEL_BYTES * (py * width + px)
                    + 3) by (nonlinear_arith);
            }
            px = px + 1;
        }
        proof {
            assert(PIXEL_BYTES * ((py + 1) * width) == PIXEL_BYTES * (py * width + width))
                by (nonlinear_arith);
        }
        py = py + 1;
    }
    proof {
        assert(pixels@.len() == PIXEL_BYTES * (height as int) * (width as int)) by (nonlinear_arith)
            requires pixels@.len() == PIXEL_BYTES * (height * width);
        assert(pixels@.len() == total) by (nonlinear_arith)
            requires
                pixels@.len() == PIXEL_BYTES * (height as int) * (width as int),
                total == PIXEL_BYTES * (width as int) * (height as int);
        assert(pixels@ =~= target);
    }
    Ok(RasterBuffer { width, height, pixels })
}

} // verus!
