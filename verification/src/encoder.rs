//! Scannable-code encoder: turns a short text (the connection URL) into a
//! square monochrome bitmap fit for optical scanning.
//!
//! The module grid itself comes from the `qrcode` crate; everything around
//! it — scaling the grid to a target size, centering it, and keeping the
//! quiet border that scannability requires — is rendered and proved here.
//! The whole encoding is a function of the text and target size alone, so a
//! caller may cache the bitmap per URL.

use vstd::prelude::*;
use vstd::arithmetic::div_mod::lemma_div_is_ordered;
use vstd::arithmetic::div_mod::lemma_div_multiples_vanish;
use vstd::arithmetic::div_mod::lemma_div_nonincreasing;
use vstd::arithmetic::div_mod::lemma_fundamental_div_mod;
use vstd::arithmetic::div_mod::lemma_fundamental_div_mod_converse_div;
use vstd::arithmetic::div_mod::lemma_fundamental_div_mod_converse_mod;
use vstd::arithmetic::div_mod::lemma_multiply_divide_lt;
use vstd::arithmetic::mul::lemma_mul_inequality;
use vstd::arithmetic::mul::lemma_mul_is_distributive_add;
use vstd::arithmetic::mul::lemma_mul_left_inequality;

verus! {

/// Encoding failed: the text exceeds the capacity of the encoding scheme.
/// Non-fatal for the caller — skip rendering, keep the URL text visible.
#[derive(Debug, Clone, Copy, PartialEq, Eq, Structural)]
pub struct EncodingError;

/// What the scheme encodes a given text into: `None` when the text exceeds
/// its capacity, otherwise the side length and the row-major module grid
/// (`true` is a dark module). A function of the text alone, which is what
/// makes the whole encoding deterministic.
pub uninterp spec fn qr_modules(text: Seq<char>) -> Option<(nat, Seq<bool>)>;

/// Relies on `qrcode::QrCode::new` (medium error correction) together with
/// `QrCode::width` and `QrCode::to_colors`: the module grid depends on the
/// input bytes alone; construction fails exactly when the data is too long
/// for every version of the scheme; the grid is square, and its side is one
/// of the normal versions' widths, `4 * version + 17` for versions 1..=40.
#[verifier::external_body]
fn qr_encode_raw(text: &str) -> (r: Option<(usize, Vec<bool>)>)
    ensures
        r is Some <==> qr_modules(text@) is Some,
        r matches Some(p) ==> qr_modules(text@) == Some((p.0 as nat, p.1@)),
        r matches Some(p) ==> 21 <= p.0 <= 177 && p.1@.len() == p.0 * p.0,
        text@.len() == 0 ==> r is Some,
{
    match qrcode::QrCode::new(text.as_bytes()) {
        Ok(code) => {
            let side = code.width();
            let cells: Vec<bool> = code
                .to_colors()
                .into_iter()
                .map(|c| match c {
                    qrcode::Color::Dark => true,
                    qrcode::Color::Light => false,
                })
                .collect();
            Some((side, cells))
        },
        Err(_) => None,
    }
}

/// Width of the quiet border, in modules, kept on every side of the code.
pub open spec fn spec_quiet() -> int {
    4
}

/// Module span of the code plus its quiet border.
pub open spec fn spec_total(side: int) -> int {
    side + 2 * spec_quiet()
}

/// The smaller of the two target dimensions; the output bitmap is square.
pub open spec fn spec_target(tw: int, th: int) -> int {
    if tw <= th {
        tw
    } else {
        th
    }
}

/// Pixels per module: the largest scale at which the code and its border
/// fit the target, and never less than one pixel per module.
pub open spec fn spec_scale(side: int, tw: int, th: int) -> int {
    if spec_target(tw, th) >= spec_total(side) {
        spec_target(tw, th) / spec_total(side)
    } else {
        1
    }
}

/// Side length of the output bitmap in pixels: the target side, grown just
/// enough when the target cannot hold the code and its border at one pixel
/// per module.
pub open spec fn spec_out_side(side: int, tw: int, th: int) -> int {
    if spec_target(tw, th) >= spec_total(side) {
        spec_target(tw, th)
    } else {
        spec_total(side)
    }
}

/// Pixel offset of the code's top-left corner: the code sits centered in
/// the output, which leaves at least the quiet border on every side.
pub open spec fn spec_offset(side: int, tw: int, th: int) -> int {
    (spec_out_side(side, tw, th) - spec_scale(side, tw, th) * side) / 2
}

/// Color of the output pixel at column `x`, row `y`: dark exactly when it
/// falls on a dark module of the code.
pub open spec fn spec_pixel_at(
    modules: Seq<bool>,
    side: int,
    s: int,
    o: int,
    x: int,
    y: int,
) -> bool {
    &&& o <= x < o + s * side
    &&& o <= y < o + s * side
    &&& modules[((y - o) / s) * side + ((x - o) / s)]
}

/// The full output pixel grid, row-major.
pub open spec fn spec_bitmap(modules: Seq<bool>, side: int, tw: int, th: int) -> Seq<bool> {
    let n = spec_out_side(side, tw, th);
    let s = spec_scale(side, tw, th);
    let o = spec_offset(side, tw, th);
    Seq::new((n * n) as nat, |i: int| spec_pixel_at(modules, side, s, o, i % n, i / n))
}

/// The whole encoding as a function of text and target size alone: `None`
/// when the text exceeds the scheme's capacity, otherwise the output side
/// length and pixels.
pub open spec fn spec_encode(text: Seq<char>, tw: int, th: int) -> Option<(int, Seq<bool>)> {
    match qr_modules(text) {
        Some(q) => Some(
            (spec_out_side(q.0 as int, tw, th), spec_bitmap(q.1, q.0 as int, tw, th)),
        ),
        None => None,
    }
}

/// A monochrome pixel grid, row-major; `true` is a dark pixel.
pub struct Bitmap {
    width: usize,
    height: usize,
    pixels: Vec<bool>,
}

impl Bitmap {
    pub closed spec fn spec_width(&self) -> int {
        self.width as int
    }

    pub closed spec fn spec_height(&self) -> int {
        self.height as int
    }

    pub closed spec fn spec_pixels(&self) -> Seq<bool> {
        self.pixels@
    }

    /// The grid holds exactly one pixel per coordinate.
    pub open spec fn wf(&self) -> bool {
        self.spec_pixels().len() == self.spec_width() * self.spec_height()
    }

    pub fn width(&self) -> (r: usize)
        ensures
            r == self.spec_width(),
    {
        self.width
    }

    pub fn height(&self) -> (r: usize)
        ensures
            r == self.spec_height(),
    {
        self.height
    }

    pub fn pixel_count(&self) -> (r: usize)
        ensures
            r == self.spec_pixels().len(),
    {
        self.pixels.len()
    }

    /// The pixel at column `x`, row `y`.
    pub fn get(&self, x: usize, y: usize) -> (r: bool)
        requires
            self.wf(),
            x < self.spec_width(),
            y < self.spec_height(),
        ensures
            r == self.spec_pixels()[y * self.spec_width() + x],
    {
        proof {
            lemma_mul_inequality(y as int + 1, self.height as int, self.width as int);
            assert((y as int + 1) * (self.width as int) == (y as int) * (self.width as int) + (
            self.width as int)) by {
                vstd::arithmetic::mul::lemma_mul_is_commutative(y as int + 1, self.width as int);
                vstd::arithmetic::mul::lemma_mul_is_commutative(y as int, self.width as int);
                lemma_mul_is_distributive_add(self.width as int, y as int, 1);
            }
            vstd::arithmetic::mul::lemma_mul_is_commutative(self.height as int, self.width as int);
            assert((y as int) * (self.width as int) + (x as int) < (self.width as int) * (
            self.height as int));
        }
        let bound: usize = self.pixels.len();
        proof {
            assert((y as int) * (self.width as int) + (x as int) < bound as int);
        }
        self.pixels[y * self.width + x]
    }
}

/// Render a square module grid into the output bitmap: scale it to the
/// target, center it, and keep the quiet border light. The target
/// dimensions are bounded so that the output's pixel count fits the
/// machine's word size.
pub fn render_bitmap(modules: &Vec<bool>, side: usize, tw: usize, th: usize) -> (b: Bitmap)
    requires
        1 <= side <= 177,
        modules@.len() == side * side,
        tw <= 46340,
        th <= 46340,
    ensures
        b.wf(),
        b.spec_width() == spec_out_side(side as int, tw as int, th as int),
        b.spec_height() == spec_out_side(side as int, tw as int, th as int),
        b.spec_pixels() == spec_bitmap(modules@, side as int, tw as int, th as int),
{
    let total: usize = side + 8;
    let m: usize = if tw <= th {
        tw
    } else {
        th
    };
    let s: usize = if m >= total {
        m / total
    } else {
        1
    };
    proof {
        assert(m as int == spec_target(tw as int, th as int));
        assert(total as int == spec_total(side as int));
        assert(s as int == spec_scale(side as int, tw as int, th as int));
        if m >= total {
            lemma_div_is_ordered(total as int, m as int, total as int);
            vstd::arithmetic::div_mod::lemma_div_by_self(total as int);
            assert(s >= 1);
            vstd::arithmetic::div_mod::lemma_remainder_lower(m as int, total as int);
            assert(s as int * total as int <= m as int);
        } else {
            assert(s == 1);
        }
        lemma_mul_left_inequality(s as int, side as int, total as int);
        assert(s as int * side as int <= s as int * total as int);
    }
    let n: usize = if m >= total {
        m
    } else {
        total
    };
    proof {
        assert(n as int == spec_out_side(side as int, tw as int, th as int));
        if m >= total {
            assert(s as int * side as int <= m as int);
        } else {
            assert(1 * (side as int) == side as int);
        }
        assert(s as int * side as int <= n as int);
    }
    let ext: usize = s * side;
    proof {
        assert(ext <= n);
    }
    let o: usize = (n - ext) / 2;
    proof {
        lemma_div_nonincreasing((n - ext) as int, 2);
        assert(o as int == spec_offset(side as int, tw as int, th as int));
        assert(o + ext <= n);
    }
    let mut pixels: Vec<bool> = Vec::new();
    let mut y: usize = 0;
    while y < n
        invariant
            y <= n,
            n <= 46340,
            1 <= side <= 177,
            1 <= s,
            ext == s * side,
            o + ext <= n,
            modules@.len() == side * side,
            pixels@.len() == y * n,
            n as int == spec_out_side(side as int, tw as int, th as int),
            s as int == spec_scale(side as int, tw as int, th as int),
            o as int == spec_offset(side as int, tw as int, th as int),
            forall|k: int|
                0 <= k < pixels@.len() ==> pixels@[k] == spec_pixel_at(
                    modules@,
                    side as int,
                    s as int,
                    o as int,
                    k % (n as int),
                    k / (n as int),
                ),
        decreases n - y,
    {
        let mut x: usize = 0;
        proof {
            lemma_mul_inequality(y as int + 1, n as int, n as int);
            assert((y as int + 1) * (n as int) == (y as int) * (n as int) + (n as int)) by {
                vstd::arithmetic::mul::lemma_mul_is_commutative(y as int + 1, n as int);
                vstd::arithmetic::mul::lemma_mul_is_commutative(y as int, n as int);
                lemma_mul_is_distributive_add(n as int, y as int, 1);
            }
        }
        while x < n
            invariant
                x <= n,
                y < n,
                n <= 46340,
                1 <= side <= 177,
                1 <= s,
                ext == s * side,
                o + ext <= n,
                modules@.len() == side * side,
                pixels@.len() == y * n + x,
                n as int == spec_out_side(side as int, tw as int, th as int),
                s as int == spec_scale(side as int, tw as int, th as int),
                o as int == spec_offset(side as int, tw as int, th as int),
                y * n + n <= n * n,
                forall|k: int|
                    0 <= k < pixels@.len() ==> pixels@[k] == spec_pixel_at(
                        modules@,
                        side as int,
                        s as int,
                        o as int,
                        k % (n as int),
                        k / (n as int),
                    ),
            decreases n - x,
        {
            let dark: bool;
            if x >= o && x < o + ext && y >= o && y < o + ext {
                let col: usize = (x - o) / s;
                let row: usize = (y - o) / s;
                proof {
                    lemma_multiply_divide_lt((x - o) as int, s as int, side as int);
                    lemma_multiply_divide_lt((y - o) as int, s as int, side as int);
                    assert(col < side);
                    assert(row < side);
                    lemma_mul_inequality(row as int + 1, side as int, side as int);
                    lemma_mul_is_distributive_add(side as int, row as int, 1);
                    assert((row as int + 1) * (side as int) == (row as int) * (side as int) + (
                    side as int)) by {
                        vstd::arithmetic::mul::lemma_mul_is_commutative(
                            row as int + 1,
                            side as int,
                        );
                        vstd::arithmetic::mul::lemma_mul_is_commutative(row as int, side as int);
                        lemma_mul_is_distributive_add(side as int, row as int, 1);
                    }
                    assert(row * side + col < side * side);
                    lemma_mul_inequality(side as int, 177, side as int);
                    lemma_mul_left_inequality(177, side as int, 177);
                    assert(side * side <= 31329);
                }
                dark = modules[row * side + col];
                proof {
                    assert(dark == spec_pixel_at(
                        modules@,
                        side as int,
                        s as int,
                        o as int,
                        x as int,
                        y as int,
                    ));
                }
            } else {
                dark = false;
                proof {
                    assert(!spec_pixel_at(
                        modules@,
                        side as int,
                        s as int,
                        o as int,
                        x as int,
                        y as int,
                    ));
                }
            }
            pixels.push(dark);
            proof {
                let k: int = (y as int) * (n as int) + (x as int);
                lemma_fundamental_div_mod_converse_mod(k, n as int, y as int, x as int);
                lemma_fundamental_div_mod_converse_div(k, n as int, y as int, x as int);
                assert(pixels@[k] == spec_pixel_at(
                    modules@,
                    side as int,
                    s as int,
                    o as int,
                    k % (n as int),
                    k / (n as int),
                ));
            }
            x += 1;
        }
        proof {
            assert((y as int + 1) * (n as int) == (y as int) * (n as int) + (n as int)) by {
                vstd::arithmetic::mul::lemma_mul_is_commutative(y as int + 1, n as int);
                vstd::arithmetic::mul::lemma_mul_is_commutative(y as int, n as int);
                lemma_mul_is_distributive_add(n as int, y as int, 1);
            }
        }
        y += 1;
    }
    proof {
        assert(pixels@.len() == (n as int) * (n as int));
        assert(pixels@ =~= spec_bitmap(modules@, side as int, tw as int, th as int));
    }
    Bitmap { width: n, height: n, pixels }
}

/// Encode a text into a scannable bitmap of roughly the target size.
/// Fails exactly when the text exceeds the scheme's capacity; the caller
/// treats that as non-fatal and skips rendering. The result is a function
/// of the arguments alone: identical text and target give an identical
/// bitmap. The target dimensions are bounded by the largest side whose
/// square pixel count fits the machine's word size.
pub fn encode(text: &str, target_width: usize, target_height: usize) -> (r: Result<
    Bitmap,
    EncodingError,
>)
    requires
        target_width <= 46340,
        target_height <= 46340,
    ensures
        r is Ok <==> spec_encode(text@, target_width as int, target_height as int) is Some,
        r matches Ok(b) ==> spec_encode(text@, target_width as int, target_height as int)
            matches Some(e) && b.wf() && b.spec_width() == e.0 && b.spec_height() == e.0
            && b.spec_pixels() == e.1,
        text@.len() == 0 ==> r is Ok,
{
    match qr_encode_raw(text) {
        Some(p) => {
            let (side, cells) = p;
            let bmp = render_bitmap(&cells, side, target_width, target_height);
            Ok(bmp)
        },
        None => Err(EncodingError),
    }
}

/// Law: encoding is deterministic. The encoded bitmap is a function of the
/// text and the target size alone — equal inputs give equal results, so a
/// bitmap cached per URL never goes stale while the URL stands.
pub proof fn lemma_encode_deterministic(
    text1: Seq<char>,
    text2: Seq<char>,
    tw1: int,
    th1: int,
    tw2: int,
    th2: int,
)
    requires
        text1 == text2,
        tw1 == tw2,
        th1 == th2,
    ensures
        spec_encode(text1, tw1, th1) == spec_encode(text2, tw2, th2),
{
}

/// Law: the rendered bitmap keeps the quiet border. The code sits centered
/// at an offset of at least `quiet * scale` pixels, and every pixel outside
/// the code's extent — in particular the whole border — is light.
pub proof fn lemma_quiet_border(modules: Seq<bool>, side: int, tw: int, th: int, x: int, y: int)
    requires
        1 <= side,
        0 <= x < spec_out_side(side, tw, th),
        0 <= y < spec_out_side(side, tw, th),
        x < spec_offset(side, tw, th) || x >= spec_offset(side, tw, th) + spec_scale(side, tw, th)
            * side || y < spec_offset(side, tw, th) || y >= spec_offset(side, tw, th) + spec_scale(
            side,
            tw,
            th,
        ) * side,
    ensures
        spec_offset(side, tw, th) >= spec_quiet() * spec_scale(side, tw, th),
        !spec_bitmap(modules, side, tw, th)[y * spec_out_side(side, tw, th) + x],
{
    let n = spec_out_side(side, tw, th);
    let s = spec_scale(side, tw, th);
    let o = spec_offset(side, tw, th);
    assert(s >= 1) by {
        if spec_target(tw, th) >= spec_total(side) {
            lemma_div_is_ordered(spec_total(side), spec_target(tw, th), spec_total(side));
            vstd::arithmetic::div_mod::lemma_div_by_self(spec_total(side));
        }
    }
    assert(s * spec_total(side) <= n) by {
        if spec_target(tw, th) >= spec_total(side) {
            lemma_fundamental_div_mod(spec_target(tw, th), spec_total(side));
        } else {
            assert(1 * spec_total(side) == spec_total(side));
        }
    }
    assert(s * spec_total(side) == s * side + 8 * s) by {
        lemma_mul_is_distributive_add(s, side, 8);
        vstd::arithmetic::mul::lemma_mul_is_commutative(s, 8);
    }
    assert(o >= 4 * s) by {
        assert(8 * s <= n - s * side);
        lemma_div_is_ordered(8 * s, n - s * side, 2);
        assert(8 * s == 2 * (4 * s));
        lemma_div_multiples_vanish(4 * s, 2);
    }
    assert(s * side >= 0) by {
        vstd::arithmetic::mul::lemma_mul_nonnegative(s, side);
    }
    let k = y * n + x;
    assert(0 <= k < n * n) by {
        lemma_mul_inequality(y + 1, n, n);
        lemma_mul_is_distributive_add(n, y, 1);
        vstd::arithmetic::mul::lemma_mul_is_commutative(y + 1, n);
        vstd::arithmetic::mul::lemma_mul_is_commutative(y, n);
        vstd::arithmetic::mul::lemma_mul_nonnegative(y, n);
    }
    lemma_fundamental_div_mod_converse_mod(k, n, y, x);
    lemma_fundamental_div_mod_converse_div(k, n, y, x);
    assert(!spec_pixel_at(modules, side, s, o, x, y));
}

} // verus!
