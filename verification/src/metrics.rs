use vstd::prelude::*;

use crate::style::ScalePx;

verus! {

/// Integer glyph metrics of a font, in font units.
///
/// A font expresses glyph metrics as integers relative to an em square of
/// `units_per_em` font units; at a scale of `s` pixels per em, a metric of
/// `u` font units spans `u * s / units_per_em` pixels, truncated toward
/// zero.  This type carries the per-character horizontal advances and the
/// font-wide vertical metrics that layout reads; the rasterizer capability
/// that actually paints glyphs is passed to the compositor separately, so
/// that layout itself is a pure function of these metrics.
pub struct FontMetrics {
    /// Font units per em square; positive for a well-formed font.
    pub units_per_em: u16,
    /// Height of the ascender above the baseline, in font units.
    pub ascent: u16,
    /// Depth of the descender below the baseline, in font units.
    pub descent: u16,
    /// Extra gap between consecutive lines, in font units.
    pub line_gap: u16,
    /// Horizontal advance per character, in font units.  Lookup takes the
    /// first entry for a character; a character without an entry advances
    /// zero.
    pub advances: Vec<(char, u16)>,
}

/// First-match lookup of a character's horizontal advance, in font units.
pub open spec fn advance_units(table: Seq<(char, u16)>, c: char) -> nat
    decreases table.len(),
{
    if table.len() == 0 {
        0
    } else if table[0].0 == c {
        table[0].1 as nat
    } else {
        advance_units(table.drop_first(), c)
    }
}

/// Total advance of a text run, in font units: the sum of its characters'
/// advances, which is also the horizontal position one past the last glyph
/// when the run is laid out from position zero.
pub open spec fn text_units(table: Seq<(char, u16)>, text: Seq<char>) -> nat
    decreases text.len(),
{
    if text.len() == 0 {
        0
    } else {
        advance_units(table, text[0]) + text_units(table, text.drop_first())
    }
}

impl FontMetrics {
    pub open spec fn wf(&self) -> bool {
        self.units_per_em >= 1
    }

    /// Pixel width of a text run at `sx` horizontal pixels per em.  The
    /// advances accumulate exactly in font units and the total is converted
    /// to pixels once, truncating toward zero; the truncation is per run,
    /// not per glyph.
    pub open spec fn line_width(&self, text: Seq<char>, sx: u32) -> nat {
        text_units(self.advances@, text) * (sx as nat) / (self.units_per_em as nat)
    }

    /// Pixel height of a line at `sy` vertical pixels per em: ascent plus
    /// descender depth plus line gap.  Independent of any text.
    pub open spec fn line_height(&self, sy: u32) -> nat {
        (self.ascent + self.descent + self.line_gap) as nat * (sy as nat)
            / (self.units_per_em as nat)
    }

    /// Advance of one character, in font units.
    pub fn advance_lookup(&self, c: char) -> (u: u16)
        ensures
            u as nat == advance_units(self.advances@, c),
    {
        let n = self.advances.len();
        let mut i: usize = 0;
        assert(self.advances@.skip(0) =~= self.advances@);
        while i < n
            invariant
                n == self.advances@.len(),
                i <= n,
                advance_units(self.advances@, c) == advance_units(
                    self.advances@.skip(i as int),
                    c,
                ),
            decreases n - i,
        {
            let (ch, u) = self.advances[i];
            assert(self.advances@.skip(i as int)[0] == self.advances@[i as int]);
            if ch == c {
                return u;
            }
            assert(self.advances@.skip(i as int).drop_first() =~= self.advances@.skip(
                i as int + 1,
            ));
            i = i + 1;
        }
        assert(self.advances@.skip(n as int) =~= Seq::<(char, u16)>::empty());
        0
    }

    /// Pixel width of a text run at `sx` horizontal pixels per em, in full
    /// precision: the result is exact for every representable input, so
    /// callers can test how far a run would reach before painting anything.
    pub fn measure_width(&self, text: &str, sx: u32) -> (w: u128)
        requires
            self.wf(),
        ensures
            w as nat == self.line_width(text@, sx),
    {
        let n = text.unicode_len();
        let mut units: u128 = 0;
        let mut i: usize = 0;
        while i < n
            invariant
                self.wf(),
                n == text@.len(),
                i <= n,
                units as nat == text_units(self.advances@, text@.take(i as int)),
                units <= i * 0xFFFF,
            decreases n - i,
        {
            let c = text.get_char(i);
            let a = self.advance_lookup(c);
            proof {
                let pre = text@.take(i as int);
                let one = seq![text@[i as int]];
                lemma_text_units_concat(self.advances@, pre, one);
                assert(text@.take(i as int + 1) =~= pre + one);
                assert(one.drop_first() =~= Seq::<char>::empty());
                assert(text_units(self.advances@, Seq::<char>::empty()) == 0);
                assert(one[0] == text@[i as int]);
                assert(text_units(self.advances@, one) == advance_units(
                    self.advances@,
                    text@[i as int],
                ));
            }
            units = units + a as u128;
            i = i + 1;
        }
        proof {
            assert(text@.take(n as int) =~= text@);
        }
        let sxw = sx as u128;
        let upm = self.units_per_em as u128;
        proof {
            assert(units * sxw <= (0xFFFF * 0xFFFF_FFFF_FFFF_FFFFu128) * 0xFFFF_FFFFu128)
                by (nonlinear_arith)
                requires
                    units <= 0xFFFF * 0xFFFF_FFFF_FFFF_FFFFu128,
                    sxw <= 0xFFFF_FFFFu128,
            ;
        }
        (units * sxw) / upm
    }
}

/// Width and height in pixels of one text run at the given scale.
///
/// The width is the accumulation a rasterizer uses when painting the same
/// run at the same scale, so sequential draws abut with no gap or overlap;
/// an empty run measures zero.  The height reads only the font-wide vertical
/// metrics, so it is the same for every text at a fixed font and scale.
pub fn measure_line(font: &FontMetrics, text: &str, scale: ScalePx) -> (r: (u64, u64))
    requires
        font.wf(),
        font.line_width(text@, scale.x) <= u64::MAX,
    ensures
        r.0 as nat == font.line_width(text@, scale.x),
        r.1 as nat == font.line_height(scale.y),
{
    let w128 = font.measure_width(text, scale.x);
    assert(w128 <= u64::MAX as u128);
    let w = w128 as u64;
    let hunits: u64 = font.ascent as u64 + font.descent as u64 + font.line_gap as u64;
    proof {
        assert(hunits * (scale.y as u64) <= 0x2FFFDu64 * 0xFFFF_FFFFu64) by (nonlinear_arith)
            requires
                hunits <= 0x2FFFDu64,
                scale.y <= 0xFFFF_FFFFu32,
        ;
    }
    let h = hunits * (scale.y as u64) / (font.units_per_em as u64);
    (w, h)
}

/// The total advance of a concatenation is the sum of the parts' advances.
pub proof fn lemma_text_units_concat(table: Seq<(char, u16)>, a: Seq<char>, b: Seq<char>)
    ensures
        text_units(table, a + b) == text_units(table, a) + text_units(table, b),
    decreases a.len(),
{
    if a.len() == 0 {
        assert(a + b =~= b);
    } else {
        assert((a + b).drop_first() =~= a.drop_first() + b);
        assert((a + b)[0] == a[0]);
        lemma_text_units_concat(table, a.drop_first(), b);
    }
}

/// Floor division distributes over addition up to one unit of truncation.
proof fn lemma_floor_div_add(a: nat, b: nat, d: nat)
    requires
        d >= 1,
    ensures
        a / d + b / d <= (a + b) / d,
        (a + b) / d <= a / d + b / d + 1,
{
    let q1 = a / d;
    let r1 = a % d;
    let q2 = b / d;
    let r2 = b % d;
    assert(a == q1 * d + r1 && r1 < d) by (nonlinear_arith)
        requires
            d >= 1,
            q1 == a / d,
            r1 == a % d,
    ;
    assert(b == q2 * d + r2 && r2 < d) by (nonlinear_arith)
        requires
            d >= 1,
            q2 == b / d,
            r2 == b % d,
    ;
    assert((a + b) / d == q1 + q2 + (r1 + r2) / d) by (nonlinear_arith)
        requires
            d >= 1,
            a == q1 * d + r1,
            b == q2 * d + r2,
            r1 < d,
            r2 < d,
    ;
    assert((r1 + r2) / d <= 1) by (nonlinear_arith)
        requires
            d >= 1,
            r1 < d,
            r2 < d,
    ;
}

/// Width additivity: splitting a text run at any boundary splits its
/// measured pixel width, up to the single pixel that truncation toward zero
/// can withhold from the whole.
pub proof fn lemma_width_additive(font: FontMetrics, t1: Seq<char>, t2: Seq<char>, sx: u32)
    requires
        font.wf(),
    ensures
        font.line_width(t1, sx) + font.line_width(t2, sx) <= font.line_width(t1 + t2, sx),
        font.line_width(t1 + t2, sx) <= font.line_width(t1, sx) + font.line_width(t2, sx) + 1,
{
    lemma_text_units_concat(font.advances@, t1, t2);
    let u1 = text_units(font.advances@, t1);
    let u2 = text_units(font.advances@, t2);
    let s = sx as nat;
    let d = font.units_per_em as nat;
    assert((u1 + u2) * s == u1 * s + u2 * s) by (nonlinear_arith);
    lemma_floor_div_add(u1 * s, u2 * s, d);
}

/// An empty text run measures zero pixels wide at every scale.
pub proof fn lemma_empty_width(font: FontMetrics, sx: u32)
    requires
        font.wf(),
    ensures
        font.line_width(Seq::<char>::empty(), sx) == 0,
{
    let d = font.units_per_em as nat;
    assert(text_units(font.advances@, Seq::<char>::empty()) == 0);
    assert((0 as nat) / d == 0) by (nonlinear_arith)
        requires
            d >= 1,
    ;
}

} // verus!

