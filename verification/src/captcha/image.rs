//! The rendered-image challenge: a short code from a curated alphabet,
//! rendered onto a noisy canvas and answered by typing the code back.
//!
//! The canvas, the noise strokes and the line rasterizer are verified; the
//! final PNG compression is one call into an outside encoder. Glyph
//! rasterization itself goes through a font engine with floating-point
//! metrics, which the verifier refuses; the application layer draws the
//! glyphs between the two noise passes.

use crate::chars::is_space_char;
use crate::chars::char_is_space;
use crate::chars::lower_of;
use crate::chars::lowercase;
use crate::chars::chars_of;
use crate::chars::string_of;
use crate::config::Alphabet;
use crate::config::CaptchaMode;
use vstd::prelude::*;
use vstd::string::*;

verus! {

/// The rendered-image verification strategy.
pub struct ImageCaptcha;

// ---------------------------------------------------------------------------
// Alphabets
// ---------------------------------------------------------------------------

/// Latin letters with the ambiguous glyphs left out.
pub open spec fn latin_safe() -> Seq<char> {
    seq![
        'A', 'B', 'C', 'D', 'F', 'G', 'H', 'J', 'K', 'M', 'N', 'P', 'Q', 'R', 'T', 'V', 'W', 'X',
        'Y', 'Z',
    ]
}

/// Cyrillic letters with the glyphs resembling latin ones left out.
pub open spec fn cyrillic_safe() -> Seq<char> {
    seq!['Б', 'Г', 'Д', 'Ж', 'З', 'И', 'Й', 'Л', 'П', 'Ф', 'Ц', 'Ч', 'Ш', 'Щ', 'Э', 'Ю', 'Я']
}

/// Digits without zero and one.
pub open spec fn digits_safe() -> Seq<char> {
    seq!['2', '3', '4', '5', '6', '7', '8', '9']
}

/// The characters each alphabet choice offers.
pub open spec fn alphabet_chars(a: Alphabet) -> Seq<char> {
    match a {
        Alphabet::Latin => latin_safe() + digits_safe(),
        Alphabet::Cyrillic => cyrillic_safe() + digits_safe(),
        Alphabet::Both => latin_safe() + cyrillic_safe() + digits_safe(),
    }
}

fn push_latin(v: &mut Vec<char>)
    ensures
        final(v)@ == old(v)@ + latin_safe(),
{
    v.push('A');
    v.push('B');
    v.push('C');
    v.push('D');
    v.push('F');
    v.push('G');
    v.push('H');
    v.push('J');
    v.push('K');
    v.push('M');
    v.push('N');
    v.push('P');
    v.push('Q');
    v.push('R');
    v.push('T');
    v.push('V');
    v.push('W');
    v.push('X');
    v.push('Y');
    v.push('Z');
    proof {
        assert(v@ =~= old(v)@ + latin_safe());
    }
}

fn push_cyrillic(v: &mut Vec<char>)
    ensures
        final(v)@ == old(v)@ + cyrillic_safe(),
{
    v.push('Б');
    v.push('Г');
    v.push('Д');
    v.push('Ж');
    v.push('З');
    v.push('И');
    v.push('Й');
    v.push('Л');
    v.push('П');
    v.push('Ф');
    v.push('Ц');
    v.push('Ч');
    v.push('Ш');
    v.push('Щ');
    v.push('Э');
    v.push('Ю');
    v.push('Я');
    proof {
        assert(v@ =~= old(v)@ + cyrillic_safe());
    }
}

fn push_digits(v: &mut Vec<char>)
    ensures
        final(v)@ == old(v)@ + digits_safe(),
{
    v.push('2');
    v.push('3');
    v.push('4');
    v.push('5');
    v.push('6');
    v.push('7');
    v.push('8');
    v.push('9');
    proof {
        assert(v@ =~= old(v)@ + digits_safe());
    }
}

/// The characters the configured alphabet offers.
pub fn select_alphabet(a: Alphabet) -> (r: Vec<char>)
    ensures
        r@ == alphabet_chars(a),
        r@.len() > 0,
{
    let mut v: Vec<char> = Vec::new();
    match a {
        Alphabet::Latin => {
            push_latin(&mut v);
            push_digits(&mut v);
        },
        Alphabet::Cyrillic => {
            push_cyrillic(&mut v);
            push_digits(&mut v);
        },
        Alphabet::Both => {
            push_latin(&mut v);
            push_cyrillic(&mut v);
            push_digits(&mut v);
        },
    }
    proof {
        assert(v@ =~= alphabet_chars(a));
    }
    v
}

// ---------------------------------------------------------------------------
// Code generation and answer normalization
// ---------------------------------------------------------------------------

/// Draws a code of `len` characters from the alphabet: the length is
/// exactly as requested and every character belongs to the alphabet.
pub fn gen_code_from(alphabet: &Vec<char>, len: usize) -> (r: String)
    requires
        alphabet@.len() > 0,
    ensures
        r@.len() == len,
        forall|i: int| 0 <= i < len ==> alphabet@.contains(#[trigger] r@[i]),
{
    let mut v: Vec<char> = Vec::new();
    let mut i: usize = 0;
    while i < len
        invariant
            i <= len,
            alphabet@.len() > 0,
            v@.len() == i,
            forall|j: int| 0 <= j < i ==> alphabet@.contains(#[trigger] v@[j]),
        decreases len - i,
    {
        let idx = crate::captcha::random_below_usize(alphabet.len());
        let c = alphabet[idx];
        v.push(c);
        i = i + 1;
    }
    string_of(&v)
}

/// `s` with every whitespace character removed.
pub open spec fn despaced(s: Seq<char>) -> Seq<char> {
    s.filter(|c: char| !is_space_char(c))
}

/// The normalized form of a typed answer: whitespace stripped, then
/// case-folded.
pub open spec fn normalized_answer(s: Seq<char>) -> Seq<char> {
    lower_of(despaced(s))
}

/// Normalizes a typed answer: strips all whitespace and lowercases.
pub fn normalize(s: &str) -> (r: String)
    ensures
        r@ == normalized_answer(s@),
{
    let cs = chars_of(s);
    let mut kept: Vec<char> = Vec::new();
    let mut i: usize = 0;
    while i < cs.len()
        invariant
            i <= cs@.len(),
            cs@ == s@,
            kept@ == cs@.subrange(0, i as int).filter(|c: char| !is_space_char(c)),
        decreases cs.len() - i,
    {
        let c = cs[i];
        proof {
            reveal(Seq::filter);
            assert(cs@.subrange(0, i + 1).drop_last() =~= cs@.subrange(0, i as int));
            assert(cs@.subrange(0, i + 1).last() == cs@[i as int]);
        }
        if !char_is_space(c) {
            kept.push(c);
        }
        i = i + 1;
    }
    proof {
        assert(cs@.subrange(0, cs@.len() as int) =~= cs@);
    }
    let kept_str = string_of(&kept);
    lowercase(kept_str.as_str())
}

impl ImageCaptcha {
    /// The mode this strategy serves.
    pub fn mode(&self) -> (r: CaptchaMode)
        ensures
            r == CaptchaMode::Image,
    {
        CaptchaMode::Image
    }

    /// Draws a fresh code and the answer expected for it: the code has the
    /// requested length over the configured alphabet, and the expected
    /// answer is its lowercase form.
    pub fn make_code(alphabet_choice: Alphabet, len: usize) -> (r: (String, String))
        ensures
            r.0@.len() == len,
            forall|i: int| 0 <= i < len ==> alphabet_chars(alphabet_choice).contains(
                #[trigger] r.0@[i],
            ),
            r.1@ == lower_of(r.0@),
    {
        let alphabet = select_alphabet(alphabet_choice);
        let code = gen_code_from(&alphabet, len);
        let expected = lowercase(code.as_str());
        (code, expected)
    }

    /// Validates an answer given in message text: normalized, it must
    /// equal the expected lowercased code.
    pub fn on_text(&self, text: &str, expected: &str) -> (r: bool)
        ensures
            r == (normalized_answer(text@) == expected@),
    {
        let n = normalize(text);
        crate::chars::str_eq(n.as_str(), expected)
    }
}

// ---------------------------------------------------------------------------
// The canvas and its rasterizer
// ---------------------------------------------------------------------------

/// One RGBA color.
#[derive(Clone, Copy, Debug, PartialEq, Eq, Structural)]
pub struct Color {
    pub red: u8,
    pub green: u8,
    pub blue: u8,
    pub alpha: u8,
}

/// An RGBA canvas: `width * height` pixels, four bytes each, rows top to
/// bottom.
pub struct Canvas {
    pub width: u32,
    pub height: u32,
    pub pixels: Vec<u8>,
}

/// The byte a channel of `c` contributes at offset `phase` of a pixel.
pub open spec fn channel_byte(c: Color, phase: int) -> u8 {
    if phase == 0 {
        c.red
    } else if phase == 1 {
        c.green
    } else if phase == 2 {
        c.blue
    } else {
        c.alpha
    }
}

impl Canvas {
    /// A canvas is well-formed when its byte buffer holds exactly its
    /// pixels.
    pub open spec fn wf(&self) -> bool {
        self.pixels@.len() == 4 * self.width * self.height
    }

    /// The byte offset of the pixel at `(x, y)`.
    pub open spec fn pixel_base(&self, x: int, y: int) -> int {
        4 * (y * self.width + x)
    }

    /// A fresh canvas filled with one color.
    pub fn new(width: u32, height: u32, fill: Color) -> (r: Canvas)
        requires
            4 * width * height <= usize::MAX,
        ensures
            r.wf(),
            r.width == width,
            r.height == height,
            forall|i: int|
                0 <= i < r.pixels@.len() ==> r.pixels@[i] == channel_byte(fill, i % 4),
    {
        proof {
            assert((width as usize) * (height as usize) * 4 == 4 * width * height) by (nonlinear_arith);
        }
        let total: usize = (width as usize) * (height as usize) * 4;
        let mut pixels: Vec<u8> = Vec::new();
        let mut i: usize = 0;
        while i < total
            invariant
                i <= total,
                pixels@.len() == i,
                forall|j: int| 0 <= j < i ==> pixels@[j] == channel_byte(fill, j % 4),
            decreases total - i,
        {
            let phase: usize = i % 4;
            if phase == 0 {
                pixels.push(fill.red);
            } else if phase == 1 {
                pixels.push(fill.green);
            } else if phase == 2 {
                pixels.push(fill.blue);
            } else {
                pixels.push(fill.alpha);
            }
            i = i + 1;
        }
        Canvas { width, height, pixels }
    }

    /// Paints one pixel: inside the canvas, exactly the four bytes of that
    /// pixel change, to the color's channels; coordinates outside the
    /// canvas change nothing.
    pub fn put_pixel(&mut self, x: i64, y: i64, color: Color)
        requires
            old(self).wf(),
        ensures
            final(self).wf(),
            final(self).width == old(self).width,
            final(self).height == old(self).height,
            final(self).pixels@.len() == old(self).pixels@.len(),
            (0 <= x < old(self).width && 0 <= y < old(self).height) ==> {
                let base = old(self).pixel_base(x as int, y as int);
                forall|i: int|
                    0 <= i < final(self).pixels@.len() ==> final(self).pixels@[i] == (
                    if base <= i < base + 4 {
                        channel_byte(color, i - base)
                    } else {
                        old(self).pixels@[i]
                    })
            },
            !(0 <= x < old(self).width && 0 <= y < old(self).height) ==> final(self).pixels@
                == old(self).pixels@,
    {
        if x >= 0 && y >= 0 && x < self.width as i64 && y < self.height as i64 {
            let xi: usize = x as usize;
            let yi: usize = y as usize;
            let w: usize = self.width as usize;
            let plen: usize = self.pixels.len();
            proof {
                assert(4 * (yi * w + xi) + 3 < plen) by (nonlinear_arith)
                    requires
                        plen == 4 * self.width * self.height,
                        w == self.width,
                        xi < w,
                        yi < self.height,
                ;
            }
            let base: usize = 4 * (yi * w + xi);
            let p = &mut self.pixels;
            p.set(base, color.red);
            p.set(base + 1, color.green);
            p.set(base + 2, color.blue);
            p.set(base + 3, color.alpha);
        }
    }
}

/// The pixels of `b`, over `a`'s canvas, hold `a`'s bytes everywhere
/// outside the given coordinate box: nothing outside the box was painted.
pub open spec fn frame_outside(
    a: Canvas,
    b: Canvas,
    lox: int,
    hix: int,
    loy: int,
    hiy: int,
) -> bool {
    forall|px: int, py: int, k: int|
        0 <= px < a.width && 0 <= py < a.height && 0 <= k < 4 && !(lox <= px <= hix && loy <= py
            <= hiy) ==> #[trigger] b.pixels@[a.pixel_base(px, py) + k] == a.pixels@[a.pixel_base(
            px,
            py,
        ) + k]
}

proof fn lemma_pixel_base_bound(w: int, h: int, px: int, py: int)
    requires
        0 <= px < w,
        0 <= py < h,
    ensures
        0 <= 4 * (py * w + px),
        4 * (py * w + px) + 3 < 4 * w * h,
{
    assert(0 <= 4 * (py * w + px) && 4 * (py * w + px) + 3 < 4 * w * h) by (nonlinear_arith)
        requires
            0 <= px < w,
            0 <= py < h,
    ;
}

/// Distinct pixel cells occupy disjoint four-byte windows.
proof fn lemma_pixel_cells_disjoint(w: int, ax: int, ay: int, bx: int, cy: int)
    requires
        0 <= ax < w,
        0 <= bx < w,
        !(ax == bx && ay == cy),
    ensures
        4 * (ay * w + ax) + 4 <= 4 * (cy * w + bx) || 4 * (cy * w + bx) + 4 <= 4 * (ay * w + ax),
{
    assert(ay * w + ax != cy * w + bx) by (nonlinear_arith)
        requires
            0 <= ax < w,
            0 <= bx < w,
            !(ax == bx && ay == cy),
    ;
}

/// The pixel at `(x, y)` holds exactly this color's channel bytes.
pub open spec fn pixel_holds(c: Canvas, x: int, y: int, col: Color) -> bool {
    forall|k: int|
        0 <= k < 4 ==> #[trigger] c.pixels@[c.pixel_base(x, y) + k] == channel_byte(col, k)
}

/// Between two canvases of one shape, every pixel either kept its bytes or
/// now holds `col`: nothing but `col` was painted.
pub open spec fn paints_only(a: Canvas, b: Canvas, col: Color) -> bool {
    forall|px: int, py: int|
        #![trigger a.pixel_base(px, py)]
        0 <= px < a.width && 0 <= py < a.height ==> ((forall|k: int|
            0 <= k < 4 ==> #[trigger] b.pixels@[a.pixel_base(px, py) + k] == a.pixels@[
                a.pixel_base(px, py) + k]) || pixel_holds(b, px, py, col))
}

/// Every pixel kept its bytes, or its alpha byte now carries one of the
/// two given values: only such paint was applied.
pub open spec fn repaints_with_alphas(a: Canvas, b: Canvas, alpha1: u8, alpha2: u8) -> bool {
    forall|px: int, py: int|
        #![trigger a.pixel_base(px, py)]
        0 <= px < a.width && 0 <= py < a.height ==> ((forall|k: int|
            0 <= k < 4 ==> #[trigger] b.pixels@[a.pixel_base(px, py) + k] == a.pixels@[
                a.pixel_base(px, py) + k]) || b.pixels@[a.pixel_base(px, py) + 3] == alpha1
            || b.pixels@[a.pixel_base(px, py) + 3] == alpha2)
}

/// One pixel write leaves every pixel unchanged or holding the color, and
/// paints the written pixel when it lies on the canvas.
proof fn lemma_put_paints_only(a: Canvas, b: Canvas, xi: int, yi: int, col: Color)
    requires
        a.wf(),
        b.wf(),
        b.width == a.width,
        b.height == a.height,
        b.pixels@.len() == a.pixels@.len(),
        (0 <= xi < a.width && 0 <= yi < a.height) ==> (forall|i: int|
            0 <= i < b.pixels@.len() ==> b.pixels@[i] == (if a.pixel_base(xi, yi) <= i
                < a.pixel_base(xi, yi) + 4 {
                channel_byte(col, i - a.pixel_base(xi, yi))
            } else {
                a.pixels@[i]
            })),
        !(0 <= xi < a.width && 0 <= yi < a.height) ==> b.pixels@ == a.pixels@,
    ensures
        paints_only(a, b, col),
        (0 <= xi < a.width && 0 <= yi < a.height) ==> pixel_holds(b, xi, yi, col),
{
    if 0 <= xi < a.width && 0 <= yi < a.height {
        lemma_pixel_base_bound(a.width as int, a.height as int, xi, yi);
        assert forall|k: int|
            0 <= k < 4 implies #[trigger] b.pixels@[b.pixel_base(xi, yi) + k] == channel_byte(
            col,
            k,
        ) by {
            assert(b.pixel_base(xi, yi) == a.pixel_base(xi, yi));
        }
        assert forall|px: int, py: int|
            #![trigger a.pixel_base(px, py)]
            0 <= px < a.width && 0 <= py < a.height implies ((forall|k: int|
                0 <= k < 4 ==> #[trigger] b.pixels@[a.pixel_base(px, py) + k] == a.pixels@[
                    a.pixel_base(px, py) + k]) || pixel_holds(b, px, py, col)) by {
            if px == xi && py == yi {
                assert(pixel_holds(b, px, py, col));
            } else {
                lemma_pixel_base_bound(a.width as int, a.height as int, px, py);
                lemma_pixel_cells_disjoint(a.width as int, px, py, xi, yi);
                assert forall|k: int|
                    0 <= k < 4 implies #[trigger] b.pixels@[a.pixel_base(px, py) + k] == a.pixels@[
                    a.pixel_base(px, py) + k] by {}
            }
        }
    } else {
        assert forall|px: int, py: int|
            #![trigger a.pixel_base(px, py)]
            0 <= px < a.width && 0 <= py < a.height implies ((forall|k: int|
                0 <= k < 4 ==> #[trigger] b.pixels@[a.pixel_base(px, py) + k] == a.pixels@[
                    a.pixel_base(px, py) + k]) || pixel_holds(b, px, py, col)) by {}
    }
}

/// Painting only one color composes.
proof fn lemma_paints_only_trans(a: Canvas, b: Canvas, c: Canvas, col: Color)
    requires
        paints_only(a, b, col),
        paints_only(b, c, col),
        b.width == a.width,
        b.height == a.height,
        c.width == a.width,
    ensures
        paints_only(a, c, col),
{
    assert forall|px: int, py: int|
        #![trigger a.pixel_base(px, py)]
        0 <= px < a.width && 0 <= py < a.height implies ((forall|k: int|
            0 <= k < 4 ==> #[trigger] c.pixels@[a.pixel_base(px, py) + k] == a.pixels@[
                a.pixel_base(px, py) + k]) || pixel_holds(c, px, py, col)) by {
        assert(b.pixel_base(px, py) == a.pixel_base(px, py));
        if !pixel_holds(c, px, py, col) {
            assert(forall|k: int|
                0 <= k < 4 ==> #[trigger] c.pixels@[b.pixel_base(px, py) + k] == b.pixels@[
                    b.pixel_base(px, py) + k]);
            if pixel_holds(b, px, py, col) {
                assert forall|k: int|
                    0 <= k < 4 implies #[trigger] c.pixels@[c.pixel_base(px, py) + k]
                        == channel_byte(col, k) by {
                    assert(c.pixel_base(px, py) == b.pixel_base(px, py));
                }
                assert(pixel_holds(c, px, py, col));
            } else {
                assert(forall|k: int|
                    0 <= k < 4 ==> #[trigger] b.pixels@[a.pixel_base(px, py) + k] == a.pixels@[
                        a.pixel_base(px, py) + k]);
                assert forall|k: int|
                    0 <= k < 4 implies #[trigger] c.pixels@[a.pixel_base(px, py) + k] == a.pixels@[
                    a.pixel_base(px, py) + k] by {}
            }
        }
    }
}

/// A pixel already holding the color keeps it through more painting of the
/// same color.
proof fn lemma_pixel_holds_preserved(b: Canvas, c: Canvas, xi: int, yi: int, col: Color)
    requires
        paints_only(b, c, col),
        0 <= xi < b.width,
        0 <= yi < b.height,
        pixel_holds(b, xi, yi, col),
        c.width == b.width,
    ensures
        pixel_holds(c, xi, yi, col),
{
    if !pixel_holds(c, xi, yi, col) {
        assert(forall|k: int|
            0 <= k < 4 ==> #[trigger] c.pixels@[b.pixel_base(xi, yi) + k] == b.pixels@[
                b.pixel_base(xi, yi) + k]);
        assert forall|k: int|
            0 <= k < 4 implies #[trigger] c.pixels@[c.pixel_base(xi, yi) + k] == channel_byte(
            col,
            k,
        ) by {
            assert(c.pixel_base(xi, yi) == b.pixel_base(xi, yi));
            assert(b.pixels@[b.pixel_base(xi, yi) + k] == channel_byte(col, k));
        }
        assert(false);
    }
}

/// Painting one color whose alpha is among the allowed values is an
/// alpha-constrained repaint.
proof fn lemma_paints_only_repaints(a: Canvas, b: Canvas, col: Color, alpha1: u8, alpha2: u8)
    requires
        paints_only(a, b, col),
        col.alpha == alpha1 || col.alpha == alpha2,
        b.width == a.width,
        b.height == a.height,
    ensures
        repaints_with_alphas(a, b, alpha1, alpha2),
{
    assert forall|px: int, py: int|
        #![trigger a.pixel_base(px, py)]
        0 <= px < a.width && 0 <= py < a.height implies ((forall|k: int|
            0 <= k < 4 ==> #[trigger] b.pixels@[a.pixel_base(px, py) + k] == a.pixels@[
                a.pixel_base(px, py) + k]) || b.pixels@[a.pixel_base(px, py) + 3] == alpha1
            || b.pixels@[a.pixel_base(px, py) + 3] == alpha2) by {
        if pixel_holds(b, px, py, col) {
            assert(b.pixels@[b.pixel_base(px, py) + 3] == channel_byte(col, 3));
            assert(b.pixel_base(px, py) == a.pixel_base(px, py));
        }
    }
}

/// Alpha-constrained repainting composes.
proof fn lemma_repaints_trans(a: Canvas, b: Canvas, c: Canvas, alpha1: u8, alpha2: u8)
    requires
        repaints_with_alphas(a, b, alpha1, alpha2),
        repaints_with_alphas(b, c, alpha1, alpha2),
        b.width == a.width,
        b.height == a.height,
    ensures
        repaints_with_alphas(a, c, alpha1, alpha2),
{
    assert forall|px: int, py: int|
        #![trigger a.pixel_base(px, py)]
        0 <= px < a.width && 0 <= py < a.height implies ((forall|k: int|
            0 <= k < 4 ==> #[trigger] c.pixels@[a.pixel_base(px, py) + k] == a.pixels@[
                a.pixel_base(px, py) + k]) || c.pixels@[a.pixel_base(px, py) + 3] == alpha1
            || c.pixels@[a.pixel_base(px, py) + 3] == alpha2) by {
        assert(b.pixel_base(px, py) == a.pixel_base(px, py));
        if (forall|k: int|
            0 <= k < 4 ==> #[trigger] c.pixels@[b.pixel_base(px, py) + k] == b.pixels@[
                b.pixel_base(px, py) + k]) {
            assert(c.pixels@[a.pixel_base(px, py) + 3] == b.pixels@[a.pixel_base(px, py) + 3]);
        }
    }
}

/// For one offset of the bundle, the four shifted line endpoints that lie
/// on the canvas hold the color.
pub open spec fn offset_endpoints_painted(
    c: Canvas,
    x0: int,
    y0: int,
    x1: int,
    y1: int,
    o: int,
    col: Color,
) -> bool {
    &&& (0 <= x0 + o < c.width && 0 <= y0 < c.height) ==> pixel_holds(c, x0 + o, y0, col)
    &&& (0 <= x1 + o < c.width && 0 <= y1 < c.height) ==> pixel_holds(c, x1 + o, y1, col)
    &&& (0 <= x0 < c.width && 0 <= y0 + o < c.height) ==> pixel_holds(c, x0, y0 + o, col)
    &&& (0 <= x1 < c.width && 0 <= y1 + o < c.height) ==> pixel_holds(c, x1, y1 + o, col)
}

/// Draws the one-pixel line from `(x0, y0)` to `(x1, y1)`: the classic
/// integer midpoint walk, clipped to the canvas, with a closing plot of
/// the end point (a repaint of the same bytes once the walk reached it).
/// Only `color` is painted, both in-canvas endpoints end up painted,
/// nothing outside the endpoints' bounding box is ever touched, and a
/// degenerate line paints exactly its one pixel.
#[verifier::loop_isolation(false)]
#[verifier::rlimit(100)]
pub fn draw_line(img: &mut Canvas, x0: i32, y0: i32, x1: i32, y1: i32, color: Color)
    requires
        old(img).wf(),
    ensures
        final(img).wf(),
        final(img).width == old(img).width,
        final(img).height == old(img).height,
        frame_outside(
            *old(img),
            *final(img),
            if x0 <= x1 {
                x0 as int
            } else {
                x1 as int
            },
            if x0 <= x1 {
                x1 as int
            } else {
                x0 as int
            },
            if y0 <= y1 {
                y0 as int
            } else {
                y1 as int
            },
            if y0 <= y1 {
                y1 as int
            } else {
                y0 as int
            },
        ),
        paints_only(*old(img), *final(img), color),
        (0 <= x0 < old(img).width && 0 <= y0 < old(img).height) ==> pixel_holds(
            *final(img),
            x0 as int,
            y0 as int,
            color,
        ),
        (0 <= x1 < old(img).width && 0 <= y1 < old(img).height) ==> pixel_holds(
            *final(img),
            x1 as int,
            y1 as int,
            color,
        ),
        (x0 == x1 && y0 == y1 && 0 <= x0 < old(img).width && 0 <= y0 < old(img).height) ==> {
            let base = old(img).pixel_base(x0 as int, y0 as int);
            forall|i: int|
                0 <= i < final(img).pixels@.len() ==> final(img).pixels@[i] == (
                if base <= i < base + 4 {
                    channel_byte(color, i - base)
                } else {
                    old(img).pixels@[i]
                })
        },
{
    let fx0: i64 = x0 as i64;
    let fy0: i64 = y0 as i64;
    let fx1: i64 = x1 as i64;
    let fy1: i64 = y1 as i64;
    let dx: i64 = if fx1 >= fx0 {
        fx1 - fx0
    } else {
        fx0 - fx1
    };
    let dy: i64 = if fy1 >= fy0 {
        fy0 - fy1
    } else {
        fy1 - fy0
    };
    let sx: i64 = if fx0 < fx1 {
        1
    } else {
        -1
    };
    let sy: i64 = if fy0 < fy1 {
        1
    } else {
        -1
    };
    let ghost lox: int = if x0 <= x1 {
        x0 as int
    } else {
        x1 as int
    };
    let ghost hix: int = if x0 <= x1 {
        x1 as int
    } else {
        x0 as int
    };
    let ghost loy: int = if y0 <= y1 {
        y0 as int
    } else {
        y1 as int
    };
    let ghost hiy: int = if y0 <= y1 {
        y1 as int
    } else {
        y0 as int
    };
    if x0 == x1 && y0 == y1 {
        img.put_pixel(fx0, fy0, color);
        proof {
            lemma_put_paints_only(*old(img), *img, x0 as int, y0 as int, color);
            assert forall|px: int, py: int, k: int|
                0 <= px < old(img).width && 0 <= py < old(img).height && 0 <= k < 4 && !(lox <= px
                    <= hix && loy <= py <= hiy) implies #[trigger] img.pixels@[old(img).pixel_base(
                px,
                py,
            ) + k] == old(img).pixels@[old(img).pixel_base(px, py) + k] by {
                lemma_pixel_base_bound(old(img).width as int, old(img).height as int, px, py);
                if 0 <= x0 && 0 <= y0 && (x0 as int) < old(img).width && (y0 as int) < old(
                    img,
                ).height {
                    lemma_pixel_cells_disjoint(
                        old(img).width as int,
                        px,
                        py,
                        x0 as int,
                        y0 as int,
                    );
                }
            }
        }
        return ;
    }
    img.put_pixel(fx0, fy0, color);
    proof {
        lemma_put_paints_only(*old(img), *img, x0 as int, y0 as int, color);
        assert forall|px: int, py: int, k: int|
            0 <= px < old(img).width && 0 <= py < old(img).height && 0 <= k < 4 && !(lox <= px
                <= hix && loy <= py <= hiy) implies #[trigger] img.pixels@[old(img).pixel_base(
            px,
            py,
        ) + k] == old(img).pixels@[old(img).pixel_base(px, py) + k] by {
            lemma_pixel_base_bound(old(img).width as int, old(img).height as int, px, py);
            if 0 <= x0 && 0 <= y0 && (x0 as int) < old(img).width && (y0 as int) < old(
                img,
            ).height {
                lemma_pixel_cells_disjoint(old(img).width as int, px, py, x0 as int, y0 as int);
            }
        }
    }
    let mut err: i64 = dx + dy;
    let mut x: i64 = fx0;
    let mut y: i64 = fy0;
    let mut steps: i64 = dx - dy;
    loop
        invariant
            img.wf(),
            img.width == old(img).width,
            img.height == old(img).height,
            !(fx0 == fx1 && fy0 == fy1),
            if fx0 <= fx1 {
                fx0 <= x <= fx1
            } else {
                fx1 <= x <= fx0
            },
            if fy0 <= fy1 {
                fy0 <= y <= fy1
            } else {
                fy1 <= y <= fy0
            },
            -0x1_8000_0000 <= err <= 0x1_8000_0000,
            0 <= steps,
            frame_outside(*old(img), *img, lox, hix, loy, hiy),
            paints_only(*old(img), *img, color),
            (0 <= x0 < old(img).width && 0 <= y0 < old(img).height) ==> pixel_holds(
                *img,
                x0 as int,
                y0 as int,
                color,
            ),
        decreases steps,
    {
        if x == fx1 && y == fy1 {
            break ;
        }
        if steps == 0 {
            break ;
        }
        let e2: i64 = 2 * err;
        let mut moved: bool = false;
        if e2 >= dy {
            err = err + dy;
            if x != fx1 {
                x = x + sx;
                moved = true;
            }
        }
        if e2 <= dx {
            err = err + dx;
            if y != fy1 {
                y = y + sy;
                moved = true;
            }
        }
        steps = steps - 1;
        if !moved {
            break ;
        }
        let ghost prev: Canvas = *img;
        img.put_pixel(x, y, color);
        proof {
            lemma_put_paints_only(prev, *img, x as int, y as int, color);
            lemma_paints_only_trans(*old(img), prev, *img, color);
            if 0 <= x0 && 0 <= y0 && (x0 as int) < old(img).width && (y0 as int) < old(
                img,
            ).height {
                lemma_pixel_holds_preserved(prev, *img, x0 as int, y0 as int, color);
            }
            assert forall|px: int, py: int, k: int|
                0 <= px < old(img).width && 0 <= py < old(img).height && 0 <= k < 4 && !(lox <= px
                    <= hix && loy <= py <= hiy) implies #[trigger] img.pixels@[old(img).pixel_base(
                px,
                py,
            ) + k] == old(img).pixels@[old(img).pixel_base(px, py) + k] by {
                lemma_pixel_base_bound(old(img).width as int, old(img).height as int, px, py);
                assert(prev.pixels@[old(img).pixel_base(px, py) + k] == old(img).pixels@[old(
                    img,
                ).pixel_base(px, py) + k]);
                if 0 <= x && 0 <= y && (x as int) < prev.width && (y as int) < prev.height {
                    lemma_pixel_cells_disjoint(old(img).width as int, px, py, x as int, y as int);
                }
            }
        }
    }
    let ghost last: Canvas = *img;
    img.put_pixel(fx1, fy1, color);
    proof {
        lemma_put_paints_only(last, *img, x1 as int, y1 as int, color);
        lemma_paints_only_trans(*old(img), last, *img, color);
        if 0 <= x0 && 0 <= y0 && (x0 as int) < old(img).width && (y0 as int) < old(img).height {
            lemma_pixel_holds_preserved(last, *img, x0 as int, y0 as int, color);
        }
        assert forall|px: int, py: int, k: int|
            0 <= px < old(img).width && 0 <= py < old(img).height && 0 <= k < 4 && !(lox <= px
                <= hix && loy <= py <= hiy) implies #[trigger] img.pixels@[old(img).pixel_base(
            px,
            py,
        ) + k] == old(img).pixels@[old(img).pixel_base(px, py) + k] by {
            lemma_pixel_base_bound(old(img).width as int, old(img).height as int, px, py);
            assert(last.pixels@[old(img).pixel_base(px, py) + k] == old(img).pixels@[old(
                img,
            ).pixel_base(px, py) + k]);
            if 0 <= x1 && 0 <= y1 && (x1 as int) < old(img).width && (y1 as int) < old(
                img,
            ).height {
                lemma_pixel_cells_disjoint(old(img).width as int, px, py, x1 as int, y1 as int);
            }
        }
    }
}

/// Draws a thicker line as a bundle of parallel one-pixel lines: for each
/// offset up to half the width, the two lines shifted by it horizontally
/// and vertically. Only `color` is painted, each shifted line's in-canvas
/// endpoints end up painted, and nothing outside the endpoints' bounding
/// box, widened by that half width, is ever touched.
#[verifier::loop_isolation(false)]
#[verifier::rlimit(100)]
pub fn draw_thick_line(
    img: &mut Canvas,
    x0: i32,
    y0: i32,
    x1: i32,
    y1: i32,
    width: i32,
    color: Color,
)
    requires
        old(img).wf(),
        0 <= width <= 16,
        -0x7fff_0000 <= x0 <= 0x7fff_0000,
        -0x7fff_0000 <= y0 <= 0x7fff_0000,
        -0x7fff_0000 <= x1 <= 0x7fff_0000,
        -0x7fff_0000 <= y1 <= 0x7fff_0000,
    ensures
        final(img).wf(),
        final(img).width == old(img).width,
        final(img).height == old(img).height,
        frame_outside(
            *old(img),
            *final(img),
            (if x0 <= x1 {
                x0 as int
            } else {
                x1 as int
            }) - width / 2,
            (if x0 <= x1 {
                x1 as int
            } else {
                x0 as int
            }) + width / 2,
            (if y0 <= y1 {
                y0 as int
            } else {
                y1 as int
            }) - width / 2,
            (if y0 <= y1 {
                y1 as int
            } else {
                y0 as int
            }) + width / 2,
        ),
        paints_only(*old(img), *final(img), color),
        forall|o: int|
            -(width as int / 2) <= o <= width as int / 2 ==> #[trigger] offset_endpoints_painted(
                *final(img),
                x0 as int,
                y0 as int,
                x1 as int,
                y1 as int,
                o,
                color,
            ),
{
    let half: i32 = width / 2;
    let ghost lox: int = (if x0 <= x1 {
        x0 as int
    } else {
        x1 as int
    }) - half as int;
    let ghost hix: int = (if x0 <= x1 {
        x1 as int
    } else {
        x0 as int
    }) + half as int;
    let ghost loy: int = (if y0 <= y1 {
        y0 as int
    } else {
        y1 as int
    }) - half as int;
    let ghost hiy: int = (if y0 <= y1 {
        y1 as int
    } else {
        y0 as int
    }) + half as int;
    let mut off: i32 = -half;
    while off <= half
        invariant
            img.wf(),
            img.width == old(img).width,
            img.height == old(img).height,
            0 <= half <= 8,
            -half <= off <= half + 1,
            frame_outside(*old(img), *img, lox, hix, loy, hiy),
            paints_only(*old(img), *img, color),
            forall|o: int|
                -half <= o < off ==> #[trigger] offset_endpoints_painted(
                    *img,
                    x0 as int,
                    y0 as int,
                    x1 as int,
                    y1 as int,
                    o,
                    color,
                ),
        decreases half - off + 1,
    {
        let ghost before: Canvas = *img;
        draw_line(img, x0 + off, y0, x1 + off, y1, color);
        let ghost between: Canvas = *img;
        draw_line(img, x0, y0 + off, x1, y1 + off, color);
        proof {
            lemma_paints_only_trans(*old(img), before, between, color);
            lemma_paints_only_trans(*old(img), between, *img, color);
            let wi: int = old(img).width as int;
            let hi: int = old(img).height as int;
            assert forall|o: int|
                -half <= o < off + 1 implies #[trigger] offset_endpoints_painted(
                *img,
                x0 as int,
                y0 as int,
                x1 as int,
                y1 as int,
                o,
                color,
            ) by {
                let x0i: int = x0 as int;
                let y0i: int = y0 as int;
                let x1i: int = x1 as int;
                let y1i: int = y1 as int;
                let x0o: int = x0i + o;
                let x1o: int = x1i + o;
                let y0o: int = y0i + o;
                let y1o: int = y1i + o;
                if o == off as int {
                    if 0 <= x0o < wi && 0 <= y0i < hi {
                        assert(pixel_holds(between, x0o, y0i, color));
                        lemma_pixel_holds_preserved(between, *img, x0o, y0i, color);
                    }
                    if 0 <= x1o < wi && 0 <= y1i < hi {
                        assert(pixel_holds(between, x1o, y1i, color));
                        lemma_pixel_holds_preserved(between, *img, x1o, y1i, color);
                    }
                    if 0 <= x0i < wi && 0 <= y0o < hi {
                        assert(pixel_holds(*img, x0i, y0o, color));
                    }
                    if 0 <= x1i < wi && 0 <= y1o < hi {
                        assert(pixel_holds(*img, x1i, y1o, color));
                    }
                } else {
                    assert(offset_endpoints_painted(
                        before,
                        x0 as int,
                        y0 as int,
                        x1 as int,
                        y1 as int,
                        o,
                        color,
                    ));
                    if 0 <= x0o < wi && 0 <= y0i < hi {
                        lemma_pixel_holds_preserved(before, between, x0o, y0i, color);
                        lemma_pixel_holds_preserved(between, *img, x0o, y0i, color);
                    }
                    if 0 <= x1o < wi && 0 <= y1i < hi {
                        lemma_pixel_holds_preserved(before, between, x1o, y1i, color);
                        lemma_pixel_holds_preserved(between, *img, x1o, y1i, color);
                    }
                    if 0 <= x0i < wi && 0 <= y0o < hi {
                        lemma_pixel_holds_preserved(before, between, x0i, y0o, color);
                        lemma_pixel_holds_preserved(between, *img, x0i, y0o, color);
                    }
                    if 0 <= x1i < wi && 0 <= y1o < hi {
                        lemma_pixel_holds_preserved(before, between, x1i, y1o, color);
                        lemma_pixel_holds_preserved(between, *img, x1i, y1o, color);
                    }
                }
            }
            assert forall|px: int, py: int, k: int|
                0 <= px < old(img).width && 0 <= py < old(img).height && 0 <= k < 4 && !(lox <= px
                    <= hix && loy <= py <= hiy) implies #[trigger] img.pixels@[old(img).pixel_base(
                px,
                py,
            ) + k] == old(img).pixels@[old(img).pixel_base(px, py) + k] by {
                lemma_pixel_base_bound(old(img).width as int, old(img).height as int, px, py);
                let minx: int = if x0 <= x1 {
                    x0 as int
                } else {
                    x1 as int
                };
                let maxx: int = if x0 <= x1 {
                    x1 as int
                } else {
                    x0 as int
                };
                let miny: int = if y0 <= y1 {
                    y0 as int
                } else {
                    y1 as int
                };
                let maxy: int = if y0 <= y1 {
                    y1 as int
                } else {
                    y0 as int
                };
                // Outside the widened box means outside both shifted line
                // boxes.
                assert(px < minx + off || px > maxx + off || py < miny || py > maxy);
                assert(px < minx || px > maxx || py < miny + off || py > maxy + off);
                assert(before.pixel_base(px, py) == old(img).pixel_base(px, py));
                assert(between.pixel_base(px, py) == old(img).pixel_base(px, py));
                assert(between.pixels@[before.pixel_base(px, py) + k] == before.pixels@[
                    before.pixel_base(px, py) + k]);
                assert(img.pixels@[between.pixel_base(px, py) + k] == between.pixels@[
                    between.pixel_base(px, py) + k]);
                assert(before.pixels@[old(img).pixel_base(px, py) + k] == old(img).pixels@[old(
                    img,
                ).pixel_base(px, py) + k]);
            }
        }
        off = off + 1;
    }
}

// ---------------------------------------------------------------------------
// Noise passes
// ---------------------------------------------------------------------------

/// One random color with the given alpha.
fn random_color(alpha: u8) -> (r: Color)
    ensures
        r.alpha == alpha,
{
    let red: u32 = crate::captcha::random_below_u32(256);
    let green: u32 = crate::captcha::random_below_u32(256);
    let blue: u32 = crate::captcha::random_below_u32(256);
    Color { red: red as u8, green: green as u8, blue: blue as u8, alpha }
}

/// A random coordinate within a dimension of the canvas.
fn random_coord(limit: u32) -> (r: i32)
    requires
        0 < limit <= 0x4000_0000,
    ensures
        0 <= r < limit,
{
    let v: u32 = crate::captcha::random_below_u32(limit);
    v as i32
}

/// The noise drawn under the text: random heavier strokes (alpha 180),
/// then single points (alpha 200). Whatever the random draws were, every
/// pixel either kept its bytes or now carries one of those two alpha
/// values, and at least one freshly painted point is on the canvas — an
/// untouched canvas cannot come back.
#[verifier::loop_isolation(false)]
pub fn add_noise(img: &mut Canvas)
    requires
        old(img).wf(),
        0 < old(img).width <= 0x4000_0000,
        0 < old(img).height <= 0x4000_0000,
    ensures
        final(img).wf(),
        final(img).width == old(img).width,
        final(img).height == old(img).height,
        repaints_with_alphas(*old(img), *final(img), 180, 200),
        exists|px: int, py: int|
            #![trigger old(img).pixel_base(px, py)]
            0 <= px < old(img).width && 0 <= py < old(img).height && final(img).pixels@[old(
                img,
            ).pixel_base(px, py) + 3] == 200,
{
    let mut k: usize = 0;
    while k < 14
        invariant
            img.wf(),
            img.width == old(img).width,
            img.height == old(img).height,
            img.width > 0,
            img.height > 0,
            repaints_with_alphas(*old(img), *img, 180, 200),
        decreases 14 - k,
    {
        let x1 = random_coord(img.width);
        let y1 = random_coord(img.height);
        let x2 = random_coord(img.width);
        let y2 = random_coord(img.height);
        let color = random_color(180);
        let wr: u32 = crate::captcha::random_below_u32(3);
        let w: i32 = 1 + (wr as i32);
        let ghost before: Canvas = *img;
        draw_thick_line(img, x1, y1, x2, y2, w, color);
        proof {
            lemma_paints_only_repaints(before, *img, color, 180, 200);
            lemma_repaints_trans(*old(img), before, *img, 180, 200);
        }
        k = k + 1;
    }
    let dots: usize = (img.width as usize) * 2;
    let mut k2: usize = 0;
    while k2 < dots
        invariant
            img.wf(),
            img.width == old(img).width,
            img.height == old(img).height,
            img.width > 0,
            img.height > 0,
            repaints_with_alphas(*old(img), *img, 180, 200),
            k2 > 0 ==> exists|px: int, py: int|
                #![trigger old(img).pixel_base(px, py)]
                0 <= px < old(img).width && 0 <= py < old(img).height && img.pixels@[old(
                    img,
                ).pixel_base(px, py) + 3] == 200,
        decreases dots - k2,
    {
        let x = random_coord(img.width);
        let y = random_coord(img.height);
        let color = random_color(200);
        let ghost before: Canvas = *img;
        img.put_pixel(x as i64, y as i64, color);
        proof {
            lemma_put_paints_only(before, *img, x as int, y as int, color);
            lemma_paints_only_repaints(before, *img, color, 180, 200);
            lemma_repaints_trans(*old(img), before, *img, 180, 200);
            assert(pixel_holds(*img, x as int, y as int, color));
            assert(img.pixels@[old(img).pixel_base(x as int, y as int) + 3] == 200) by {
                assert(img.pixel_base(x as int, y as int) == old(img).pixel_base(
                    x as int,
                    y as int,
                ));
                assert(img.pixels@[img.pixel_base(x as int, y as int) + 3] == channel_byte(
                    color,
                    3,
                ));
            }
        }
        k2 = k2 + 1;
    }
}

/// The lighter noise drawn over the text: translucent strokes (alpha
/// 120). Whatever the random draws were, every pixel either kept its bytes
/// or now carries that alpha, and at least one stroke endpoint is freshly
/// painted on the canvas — an untouched canvas cannot come back.
#[verifier::loop_isolation(false)]
pub fn add_overlay_noise(img: &mut Canvas)
    requires
        old(img).wf(),
        0 < old(img).width <= 0x4000_0000,
        0 < old(img).height <= 0x4000_0000,
    ensures
        final(img).wf(),
        final(img).width == old(img).width,
        final(img).height == old(img).height,
        repaints_with_alphas(*old(img), *final(img), 120, 120),
        exists|px: int, py: int|
            #![trigger old(img).pixel_base(px, py)]
            0 <= px < old(img).width && 0 <= py < old(img).height && final(img).pixels@[old(
                img,
            ).pixel_base(px, py) + 3] == 120,
{
    let mut k: usize = 0;
    while k < 10
        invariant
            img.wf(),
            img.width == old(img).width,
            img.height == old(img).height,
            img.width > 0,
            img.height > 0,
            repaints_with_alphas(*old(img), *img, 120, 120),
            k > 0 ==> exists|px: int, py: int|
                #![trigger old(img).pixel_base(px, py)]
                0 <= px < old(img).width && 0 <= py < old(img).height && img.pixels@[old(
                    img,
                ).pixel_base(px, py) + 3] == 120,
        decreases 10 - k,
    {
        let x1 = random_coord(img.width);
        let y1 = random_coord(img.height);
        let x2 = random_coord(img.width);
        let y2 = random_coord(img.height);
        let color = random_color(120);
        let wr: u32 = crate::captcha::random_below_u32(2);
        let w: i32 = 1 + (wr as i32);
        let ghost before: Canvas = *img;
        draw_thick_line(img, x1, y1, x2, y2, w, color);
        proof {
            lemma_paints_only_repaints(before, *img, color, 120, 120);
            lemma_repaints_trans(*old(img), before, *img, 120, 120);
            // The just-drawn stroke's own start point, at offset zero, is
            // the fresh witness.
            assert(offset_endpoints_painted(
                *img,
                x1 as int,
                y1 as int,
                x2 as int,
                y2 as int,
                0,
                color,
            ));
            assert(pixel_holds(*img, x1 as int, y1 as int, color));
            assert(img.pixels@[old(img).pixel_base(x1 as int, y1 as int) + 3] == 120) by {
                assert(img.pixel_base(x1 as int, y1 as int) == old(img).pixel_base(
                    x1 as int,
                    y1 as int,
                ));
                assert(img.pixels@[img.pixel_base(x1 as int, y1 as int) + 3] == channel_byte(
                    color,
                    3,
                ));
            }
        }
        k = k + 1;
    }
}

// ---------------------------------------------------------------------------
// PNG encoding
// ---------------------------------------------------------------------------

/// The PNG byte stream the outside encoder produces for an RGBA canvas of
/// the given size and pixel bytes.
pub uninterp spec fn png_of(width: nat, height: nat, pixels: Seq<u8>) -> Seq<u8>;

/// Relies on `image::codecs::png::PngEncoder::encode`: a deterministic
/// compression of the pixel bytes; on the rare encoder error there is no
/// output.
#[verifier::external_body]
pub fn encode_png(img: &Canvas) -> (r: Option<Vec<u8>>)
    requires
        img.wf(),
    ensures
        r matches Some(v) ==> v@ == png_of(img.width as nat, img.height as nat, img.pixels@),
{
    let mut buf: Vec<u8> = Vec::new();
    let encoder = image::codecs::png::PngEncoder::new(&mut buf);
    match encoder.encode(img.pixels.as_slice(), img.width, img.height, image::ColorType::Rgba8) {
        Ok(()) => Some(buf),
        Err(_) => None,
    }
}

} // verus!
