//! Text layout on the framebuffer console: the cursor, glyph lookup, and the
//! pixels of a character cell. Writing pixels to the framebuffer is left to
//! the caller.
use vstd::prelude::*;
use vstd::string::StringSliceAdditionalSpecFns;
use vstd::utf8::valid_utf8;
use crate::text::{field, field_bounds, has_prefix, parse_i32, parse_usize, spec_parse_i32, spec_parse_usize, starts_with, str_from_utf8};

verus! {

/// Number of glyphs of a font (the Basic Multilingual Plane).
pub const GLYPH_COUNT: usize = 0x10000;

/// Rows of a glyph bitmap; each row is 16 pixels, most significant bit first.
pub const GLYPH_ROWS: usize = 16;

/// Colour of set pixels: white.
pub const FOREGROUND: u32 = 0xFFFFFF;

/// Colour of clear pixels: black.
pub const BACKGROUND: u32 = 0x000000;

/// A glyph: its size in pixels (0 for the font's default) and its rows,
/// each 16 pixels wide with the leftmost pixel in the most significant bit.
#[derive(Clone, Copy)]
pub struct Glyph {
    pub width: u8,
    pub height: u8,
    pub bitmap: [u16; 16],
}

impl Glyph {
    /// A glyph of default size with no pixel set.
    pub fn empty() -> (r: Glyph)
        ensures
            r.width == 0,
            r.height == 0,
            forall|i: int| 0 <= i < GLYPH_ROWS ==> r.bitmap@[i] == 0,
            r.bitmap@ == Seq::new(GLYPH_ROWS as nat, |k: int| 0u16),
    {
        let r = Glyph { width: 0, height: 0, bitmap: [0, 0, 0, 0, 0, 0, 0, 0, 0, 0, 0, 0, 0, 0, 0, 0] };
        proof {
            vstd::array::array_len_matches_n(&r.bitmap);
            assert(r.bitmap@ =~= Seq::new(GLYPH_ROWS as nat, |k: int| 0u16));
        }
        r
    }
}

/// A bitmap font: default cell size and one glyph per code point of the
/// Basic Multilingual Plane.
pub struct Font {
    pub(crate) width: usize,
    pub(crate) height: usize,
    pub(crate) glyphs: Vec<Glyph>,
}

impl Font {
    pub open(crate) spec fn spec_width(&self) -> usize {
        self.width
    }

    pub open(crate) spec fn spec_height(&self) -> usize {
        self.height
    }

    pub open(crate) spec fn spec_glyphs(&self) -> Seq<Glyph> {
        self.glyphs@
    }

    /// One glyph per code point, and cells of 1 to 16 pixels a side.
    pub open(crate) spec fn wf(&self) -> bool {
        &&& self.glyphs@.len() == GLYPH_COUNT
        &&& 1 <= self.width <= 16
        &&& 1 <= self.height <= 16
        &&& forall|i: int| 0 <= i < GLYPH_COUNT ==> (#[trigger] self.glyphs@[i]).width <= 16 && self.glyphs@[i].height <= 16
    }

    /// An 8 by 16 font whose glyphs are all empty.
    pub fn empty() -> (r: Font)
        ensures
            r.wf(),
            r.spec_width() == 8,
            r.spec_height() == 16,
            forall|i: int| 0 <= i < GLYPH_COUNT ==> (#[trigger] r.spec_glyphs()[i]).width == 0
                && r.spec_glyphs()[i].height == 0
                && r.spec_glyphs()[i].bitmap@ == Seq::new(GLYPH_ROWS as nat, |k: int| 0u16),
    {
        let mut glyphs: Vec<Glyph> = Vec::new();
        let mut i: usize = 0;
        while i < GLYPH_COUNT
            invariant
                i <= GLYPH_COUNT,
                glyphs@.len() == i,
                forall|j: int| 0 <= j < i ==> (#[trigger] glyphs@[j]).width == 0 && glyphs@[j].height == 0
                    && glyphs@[j].bitmap@ == Seq::new(GLYPH_ROWS as nat, |k: int| 0u16),
            decreases GLYPH_COUNT - i,
        {
            glyphs.push(Glyph::empty());
            i = i + 1;
        }
        Font { width: 8, height: 16, glyphs }
    }

    /// The glyph of `codepoint`; the glyph of code point 0 for one outside
    /// the Basic Multilingual Plane.
    pub fn glyph(&self, codepoint: u32) -> (r: &Glyph)
        requires
            self.wf(),
        ensures
            codepoint < GLYPH_COUNT ==> *r == self.spec_glyphs()[codepoint as int],
            codepoint >= GLYPH_COUNT ==> *r == self.spec_glyphs()[0],
    {
        let idx = codepoint as usize;
        if idx < GLYPH_COUNT {
            &self.glyphs[idx]
        } else {
            &self.glyphs[0]
        }
    }
}

/// Whether the pixel at (`col`, `row`) of a cell showing glyph `g` is set:
/// inside the glyph's size (the font's default for a size of 0), and set in
/// its bitmap.
pub open spec fn pixel_set(g: Glyph, default_w: usize, default_h: usize, row: int, col: int) -> bool {
    let gw: int = if g.width == 0 { default_w as int } else { g.width as int };
    let gh: int = if g.height == 0 { default_h as int } else { g.height as int };
    row < gh && col < gw && (g.bitmap@[row] & (1u16 << ((15 - col) as u16))) != 0
}

/// The value of the hexadecimal digit `b`; 0 for any other byte.
pub open spec fn hex_digit(b: u8) -> u16 {
    if 0x30 <= b <= 0x39 {
        (b - 0x30) as u16
    } else if 0x61 <= b <= 0x66 {
        (b - 0x61 + 10) as u16
    } else if 0x41 <= b <= 0x46 {
        (b - 0x41 + 10) as u16
    } else {
        0
    }
}

/// `x` clamped to the range of `u16`.
pub open spec fn saturate_u16(x: int) -> u16 {
    if x > 0xFFFF { 0xFFFF } else { x as u16 }
}

/// The hexadecimal number that `s` spells, each step saturating at the
/// largest `u16`; bytes that are not hex digits count as 0.
pub open spec fn hex_value(s: Seq<u8>) -> u16
    decreases s.len(),
{
    if s.len() == 0 {
        0
    } else {
        saturate_u16(saturate_u16(hex_value(s.drop_last()) * 16) + hex_digit(s.last()))
    }
}

/// Parses a hexadecimal bitmap row as `hex_value` states.
pub fn parse_hex_u16(s: &str) -> (r: u16)
    ensures
        r == hex_value(s.spec_bytes()),
{
    hex_u16(s.as_bytes())
}

/// The `hex_value` of `bytes`.
fn hex_u16(bytes: &[u8]) -> (r: u16)
    ensures
        r == hex_value(bytes@),
{
    let mut value: u16 = 0;
    let mut i: usize = 0;
    while i < bytes.len()
        invariant
            i <= bytes@.len(),
            value == hex_value(bytes@.subrange(0, i as int)),
        decreases bytes@.len() - i,
    {
        let b = bytes[i];
        value = if value > 0xFFF { 0xFFFF } else { value * 16 };
        let d: u16 = if 0x30 <= b && b <= 0x39 {
            (b - 0x30) as u16
        } else if 0x61 <= b && b <= 0x66 {
            (b - 0x61 + 10) as u16
        } else if 0x41 <= b && b <= 0x46 {
            (b - 0x41 + 10) as u16
        } else {
            0
        };
        value = if value as u32 + d as u32 > 0xFFFF { 0xFFFF } else { value + d };
        assert(bytes@.subrange(0, i + 1).drop_last() =~= bytes@.subrange(0, i as int));
        i = i + 1;
    }
    assert(bytes@.subrange(0, bytes@.len() as int) =~= bytes@);
    value
}

/// The top-left pixel of a character cell.
#[derive(Debug, Clone, Copy, PartialEq, Eq, Structural)]
pub struct CellPos {
    pub x: usize,
    pub y: usize,
}

/// What writing one character asks of the framebuffer.
#[derive(Debug, Clone, Copy, PartialEq, Eq, Structural)]
pub struct CharOutput {
    /// The screen was cleared before anything else.
    pub cleared: bool,
    /// The character's cell was drawn with its top-left pixel here.
    pub drawn_at: Option<CellPos>,
}

/// One character written with the cursor at (`col`, `row`) on a screen of
/// `mc` by `mr` cells of `fw` by `fh` pixels: what it asks of the
/// framebuffer, and the new column and row.
pub open spec fn write_step(col: usize, row: usize, mc: usize, mr: usize, fw: usize, fh: usize, ch: char) -> (CharOutput, usize, usize) {
    if ch == '\n' {
        let wrapped = row + 1 >= mr;
        (CharOutput { cleared: wrapped, drawn_at: None }, 0, if wrapped { 0 } else { (row + 1) as usize })
    } else if col < mc {
        (CharOutput { cleared: false, drawn_at: Some(CellPos { x: (col * fw) as usize, y: (row * fh) as usize }) }, (col + 1) as usize, row)
    } else {
        let wrapped = row + 1 >= mr;
        let nrow: usize = if wrapped { 0 } else { (row + 1) as usize };
        (CharOutput { cleared: wrapped, drawn_at: Some(CellPos { x: 0, y: (nrow * fh) as usize }) }, 1, nrow)
    }
}

/// The characters of `s` written in order from (`col`, `row`): what each
/// asks of the framebuffer, and the final column and row.
pub open spec fn write_run(col: usize, row: usize, mc: usize, mr: usize, fw: usize, fh: usize, s: Seq<char>) -> (Seq<CharOutput>, usize, usize)
    decreases s.len(),
{
    if s.len() == 0 {
        (Seq::empty(), col, row)
    } else {
        let (outs, c, r) = write_run(col, row, mc, mr, fw, fh, s.drop_last());
        let (o, c2, r2) = write_step(c, r, mc, mr, fw, fh, s.last());
        (outs.push(o), c2, r2)
    }
}

/// The cursor of the framebuffer console, in character cells.
pub struct Writer {
    column: usize,
    row: usize,
    max_cols: usize,
    max_rows: usize,
    font_width: usize,
    font_height: usize,
}

impl Writer {
    pub closed spec fn spec_column(&self) -> usize {
        self.column
    }

    pub closed spec fn spec_row(&self) -> usize {
        self.row
    }

    pub closed spec fn spec_max_cols(&self) -> usize {
        self.max_cols
    }

    pub closed spec fn spec_max_rows(&self) -> usize {
        self.max_rows
    }

    pub closed spec fn spec_font_width(&self) -> usize {
        self.font_width
    }

    pub closed spec fn spec_font_height(&self) -> usize {
        self.font_height
    }

    /// Cells fit the screen, and the cursor stays on it (one step past the
    /// last column only when the screen has no column).
    pub closed spec fn wf(&self) -> bool {
        &&& self.font_width > 0
        &&& self.font_height > 0
        &&& self.max_cols * self.font_width <= usize::MAX
        &&& self.max_rows * self.font_height <= usize::MAX
        &&& self.column <= self.max_cols || (self.max_cols == 0 && self.column <= 1)
        &&& self.row < self.max_rows || self.row == 0
    }

    /// A cursor at the top-left of a `width` by `height` pixel screen, with
    /// cells of `font_width` by `font_height` pixels.
    pub fn new(width: usize, height: usize, font_width: usize, font_height: usize) -> (r: Writer)
        requires
            font_width > 0,
            font_height > 0,
        ensures
            r.wf(),
            r.spec_column() == 0,
            r.spec_row() == 0,
            r.spec_max_cols() == width / font_width,
            r.spec_max_rows() == height / font_height,
            r.spec_font_width() == font_width,
            r.spec_font_height() == font_height,
    {
        let max_cols = width / font_width;
        let max_rows = height / font_height;
        assert(max_cols * font_width <= width) by (nonlinear_arith)
            requires
                max_cols == width / font_width,
                font_width > 0,
        ;
        assert(max_rows * font_height <= height) by (nonlinear_arith)
            requires
                max_rows == height / font_height,
                font_height > 0,
        ;
        Writer { column: 0, row: 0, max_cols, max_rows, font_width, font_height }
    }

    /// Moves to the start of the next line; past the last line the screen is
    /// cleared and the cursor returns to the top. Returns whether it cleared.
    pub fn new_line(&mut self) -> (cleared: bool)
        requires
            old(self).wf(),
        ensures
            final(self).wf(),
            cleared == (old(self).spec_row() + 1 >= old(self).spec_max_rows()),
            final(self).spec_column() == 0,
            final(self).spec_row() == if cleared { 0 } else { (old(self).spec_row() + 1) as usize },
            final(self).spec_max_cols() == old(self).spec_max_cols(),
            final(self).spec_max_rows() == old(self).spec_max_rows(),
            final(self).spec_font_width() == old(self).spec_font_width(),
            final(self).spec_font_height() == old(self).spec_font_height(),
    {
        self.column = 0;
        if self.row + 1 >= self.max_rows {
            self.clear_screen();
            true
        } else {
            self.row = self.row + 1;
            false
        }
    }

    /// Returns the cursor to the top-left cell; the caller clears the pixels.
    pub fn clear_screen(&mut self)
        requires
            old(self).wf(),
        ensures
            final(self).wf(),
            final(self).spec_column() == 0,
            final(self).spec_row() == 0,
            final(self).spec_max_cols() == old(self).spec_max_cols(),
            final(self).spec_max_rows() == old(self).spec_max_rows(),
            final(self).spec_font_width() == old(self).spec_font_width(),
            final(self).spec_font_height() == old(self).spec_font_height(),
    {
        self.row = 0;
        self.column = 0;
    }

    /// Writes one character. A newline moves to the next line; any other
    /// character first wraps to the next line when the current one is full,
    /// then is drawn in the cursor's cell, and the cursor advances by one.
    pub fn write_char(&mut self, ch: char) -> (r: CharOutput)
        requires
            old(self).wf(),
        ensures
            final(self).wf(),
            final(self).spec_max_cols() == old(self).spec_max_cols(),
            final(self).spec_max_rows() == old(self).spec_max_rows(),
            final(self).spec_font_width() == old(self).spec_font_width(),
            final(self).spec_font_height() == old(self).spec_font_height(),
            (r, final(self).spec_column(), final(self).spec_row()) == write_step(old(self).spec_column(),
                old(self).spec_row(), old(self).spec_max_cols(), old(self).spec_max_rows(),
                old(self).spec_font_width(), old(self).spec_font_height(), ch),
            ch == '\n' ==> r.drawn_at is None && final(self).spec_column() == 0
                && r.cleared == (old(self).spec_row() + 1 >= old(self).spec_max_rows())
                && final(self).spec_row() == if r.cleared { 0 } else { (old(self).spec_row() + 1) as usize },
            ch != '\n' && old(self).spec_column() < old(self).spec_max_cols() ==> !r.cleared
                && r.drawn_at == Some(CellPos {
                    x: (old(self).spec_column() * old(self).spec_font_width()) as usize,
                    y: (old(self).spec_row() * old(self).spec_font_height()) as usize,
                })
                && final(self).spec_column() == old(self).spec_column() + 1
                && final(self).spec_row() == old(self).spec_row(),
            ch != '\n' && old(self).spec_column() >= old(self).spec_max_cols() ==> {
                let wrapped = old(self).spec_row() + 1 >= old(self).spec_max_rows();
                let row = if wrapped { 0 } else { (old(self).spec_row() + 1) as usize };
                &&& r.cleared == wrapped
                &&& r.drawn_at == Some(CellPos { x: 0, y: (row * old(self).spec_font_height()) as usize })
                &&& final(self).spec_column() == 1
                &&& final(self).spec_row() == row
            },
    {
        if ch == '\n' {
            let cleared = self.new_line();
            return CharOutput { cleared, drawn_at: None };
        }
        let mut cleared = false;
        if self.column >= self.max_cols {
            cleared = self.new_line();
        }
        let (col, row, mc, mr, fw, fh) = (self.column, self.row, self.max_cols, self.max_rows, self.font_width, self.font_height);
        assert(col * fw <= mc * fw) by (nonlinear_arith)
            requires
                col <= mc || col == 0,
        ;
        assert(row * fh <= mr * fh) by (nonlinear_arith)
            requires
                row < mr || row == 0,
        ;
        let x = self.column * self.font_width;
        let y = self.row * self.font_height;
        self.column = self.column + 1;
        CharOutput { cleared, drawn_at: Some(CellPos { x, y }) }
    }

    /// Writes each character of `s` in order; returns what each one asked of
    /// the framebuffer.
    pub fn write_string(&mut self, s: &str) -> (r: Vec<CharOutput>)
        requires
            old(self).wf(),
        ensures
            final(self).wf(),
            r@.len() == s@.len(),
            (r@, final(self).spec_column(), final(self).spec_row()) == write_run(old(self).spec_column(),
                old(self).spec_row(), old(self).spec_max_cols(), old(self).spec_max_rows(),
                old(self).spec_font_width(), old(self).spec_font_height(), s@),
            final(self).spec_max_cols() == old(self).spec_max_cols(),
            final(self).spec_max_rows() == old(self).spec_max_rows(),
            final(self).spec_font_width() == old(self).spec_font_width(),
            final(self).spec_font_height() == old(self).spec_font_height(),
    {
        let mut out: Vec<CharOutput> = Vec::new();
        let n = s.unicode_len();
        let mut i: usize = 0;
        while i < n
            invariant
                self.wf(),
                n == s@.len(),
                i <= n,
                out@.len() == i,
                (out@, self.spec_column(), self.spec_row()) == write_run(old(self).spec_column(),
                    old(self).spec_row(), old(self).spec_max_cols(), old(self).spec_max_rows(),
                    old(self).spec_font_width(), old(self).spec_font_height(), s@.subrange(0, i as int)),
                self.spec_max_cols() == old(self).spec_max_cols(),
                self.spec_max_rows() == old(self).spec_max_rows(),
                self.spec_font_width() == old(self).spec_font_width(),
                self.spec_font_height() == old(self).spec_font_height(),
            decreases n - i,
        {
            let ch = s.get_char(i);
            assert(s@.subrange(0, i + 1).drop_last() =~= s@.subrange(0, i as int));
            out.push(self.write_char(ch));
            i = i + 1;
        }
        assert(s@.subrange(0, n as int) =~= s@);
        out
    }
}

impl Writer {
    /// The colours of the cell of `codepoint`, row by row: `fg` where the
    /// glyph has a pixel set, `bg` elsewhere.
    pub fn draw_char(&self, font: &Font, codepoint: u32, fg: u32, bg: u32) -> (r: Vec<Vec<u32>>)
        requires
            self.wf(),
            font.wf(),
        ensures
            r@.len() == self.spec_font_height(),
            forall|row: int| 0 <= row < r@.len() ==> (#[trigger] r@[row])@.len() == self.spec_font_width(),
            forall|row: int, col: int| 0 <= row < self.spec_font_height() && 0 <= col < self.spec_font_width()
                ==> (#[trigger] r@[row]@[col]) == if pixel_set(
                    if codepoint < GLYPH_COUNT { font.spec_glyphs()[codepoint as int] } else { font.spec_glyphs()[0] },
                    font.spec_width(), font.spec_height(), row, col) { fg } else { bg },
    {
        let glyph = font.glyph(codepoint);
        let glyph_w: usize = if glyph.width == 0 { font.width } else { glyph.width as usize };
        let glyph_h: usize = if glyph.height == 0 { font.height } else { glyph.height as usize };
        let mut rows: Vec<Vec<u32>> = Vec::new();
        let mut row: usize = 0;
        while row < self.font_height
            invariant
                row <= self.font_height,
                rows@.len() == row,
                glyph_w <= 16,
                glyph_h <= 16,
                glyph_w == if glyph.width == 0 { font.spec_width() } else { glyph.width as usize },
                glyph_h == if glyph.height == 0 { font.spec_height() } else { glyph.height as usize },
                forall|r: int| 0 <= r < row ==> (#[trigger] rows@[r])@.len() == self.font_width,
                forall|r: int, c: int| 0 <= r < row && 0 <= c < self.font_width
                    ==> (#[trigger] rows@[r]@[c]) == if pixel_set(*glyph, font.spec_width(), font.spec_height(), r, c) { fg } else { bg },
            decreases self.font_height - row,
        {
            let mut line: Vec<u32> = Vec::new();
            let mut col: usize = 0;
            while col < self.font_width
                invariant
                    row < self.font_height,
                    col <= self.font_width,
                    glyph_w <= 16,
                    glyph_h <= 16,
                    line@.len() == col,
                    glyph_w == if glyph.width == 0 { font.spec_width() } else { glyph.width as usize },
                    glyph_h == if glyph.height == 0 { font.spec_height() } else { glyph.height as usize },
                    forall|c: int| 0 <= c < col
                        ==> (#[trigger] line@[c]) == if pixel_set(*glyph, font.spec_width(), font.spec_height(), row as int, c) { fg } else { bg },
                decreases self.font_width - col,
            {
                let is_set = if row < glyph_h && col < glyph_w {
                    let bits = glyph.bitmap[row];
                    let mask = 1u16 << ((15 - col) as u16);
                    (bits & mask) != 0
                } else {
                    false
                };
                line.push(if is_set { fg } else { bg });
                col = col + 1;
            }
            rows.push(line);
            row = row + 1;
        }
        rows
    }
}

/// What a glyph shows: its size (0 for the font's default) and its rows.
pub struct GlyphView {
    pub width: u8,
    pub height: u8,
    pub rows: Seq<u16>,
}

impl Glyph {
    pub open spec fn view(&self) -> GlyphView {
        GlyphView { width: self.width, height: self.height, rows: self.bitmap@ }
    }
}

impl Font {
    /// What each glyph of the font shows.
    pub open(crate) spec fn spec_glyph_views(&self) -> Seq<GlyphView> {
        self.glyphs@.map_values(|g: Glyph| g.view())
    }
}

/// The font of `Font::empty`, as views.
pub open spec fn empty_glyph_views() -> Seq<GlyphView> {
    Seq::new(GLYPH_COUNT as nat, |i: int| GlyphView { width: 0, height: 0, rows: Seq::new(GLYPH_ROWS as nat, |k: int| 0u16) })
}

/// Where the BDF parser stands between two lines.
#[derive(Debug, Clone, Copy, PartialEq, Eq, Structural)]
pub struct BdfState {
    pub in_glyph: bool,
    pub in_bitmap: bool,
    pub encoding: i32,
    pub width: usize,
    pub height: usize,
    pub row: usize,
}

/// The state before the first line.
pub open spec fn bdf_start() -> BdfState {
    BdfState { in_glyph: false, in_bitmap: false, encoding: -1i32, width: 0, height: 0, row: 0 }
}

/// `x`, at most 16.
pub open spec fn min16(x: usize) -> usize {
    if x < 16 { x } else { 16 }
}

/// A glyph row as stored: the hexadecimal value of the line, moved to the
/// left edge when the glyph is narrower than 16 pixels.
pub open spec fn bitmap_row(line: Seq<u8>, width: usize) -> u16 {
    let v = hex_value(line);
    let w = min16(width);
    if 0 < w < 16 { v << ((16 - w) as u32) } else { v }
}

/// The parser's state and the font's default width, height and glyphs.
pub type BdfAcc = (BdfState, usize, usize, Seq<GlyphView>);

/// Whether field 1 and 2 of `line` are numbers, and which.
pub open spec fn two_numbers(line: Seq<u8>) -> Option<(usize, usize)> {
    match (field(line, 1), field(line, 2)) {
        (Some(a), Some(b)) => match (spec_parse_usize(a), spec_parse_usize(b)) {
            (Some(w), Some(h)) => Some((w, h)),
            _ => None,
        },
        _ => None,
    }
}

/// The effect of one line of a BDF font.
pub open spec fn bdf_step(acc: BdfAcc, line: Seq<u8>) -> BdfAcc {
    let (st, fw, fh, glyphs) = acc;
    if has_prefix(line, "FONTBOUNDINGBOX ".spec_bytes()) {
        match two_numbers(line) {
            Some((w, h)) => if w > 0 && h > 0 { (st, min16(w), min16(h), glyphs) } else { acc },
            None => acc,
        }
    } else if has_prefix(line, "STARTCHAR".spec_bytes()) {
        (BdfState { in_glyph: true, in_bitmap: false, encoding: -1i32, width: 0, height: 0, row: 0 }, fw, fh, glyphs)
    } else if has_prefix(line, "ENDCHAR".spec_bytes()) {
        let done = BdfState { in_glyph: false, in_bitmap: false, ..st };
        if 0 <= st.encoding < GLYPH_COUNT {
            let g = glyphs[st.encoding as int];
            let w: u8 = if st.width > 0 { min16(st.width) as u8 } else { g.width };
            let h: u8 = if st.height > 0 { min16(st.height) as u8 } else { g.height };
            (done, fw, fh, glyphs.update(st.encoding as int, GlyphView { width: w, height: h, rows: g.rows }))
        } else {
            (done, fw, fh, glyphs)
        }
    } else if !st.in_glyph {
        acc
    } else if has_prefix(line, "ENCODING ".spec_bytes()) {
        match field(line, 1) {
            Some(t) => match spec_parse_i32(t) {
                Some(v) => (BdfState { encoding: v, ..st }, fw, fh, glyphs),
                None => acc,
            },
            None => acc,
        }
    } else if has_prefix(line, "BBX ".spec_bytes()) {
        match two_numbers(line) {
            Some((w, h)) => (BdfState { width: w, height: h, ..st }, fw, fh, glyphs),
            None => acc,
        }
    } else if line == "BITMAP".spec_bytes() {
        (BdfState { in_bitmap: true, row: 0, ..st }, fw, fh, glyphs)
    } else if st.in_bitmap {
        let next = BdfState { row: if st.row < GLYPH_ROWS { (st.row + 1) as usize } else { st.row }, ..st };
        if 0 <= st.encoding < GLYPH_COUNT && st.row < GLYPH_ROWS {
            let g = glyphs[st.encoding as int];
            let rows = g.rows.update(st.row as int, bitmap_row(line, st.width));
            (next, fw, fh, glyphs.update(st.encoding as int, GlyphView { width: g.width, height: g.height, rows }))
        } else {
            (next, fw, fh, glyphs)
        }
    } else {
        acc
    }
}

/// Where the line that starts at `i` ends: the next line feed, or the end.
pub open spec fn line_end(d: Seq<u8>, i: int) -> int
    decreases d.len() - i,
{
    if 0 <= i < d.len() && d[i] != 0x0A {
        line_end(d, i + 1)
    } else {
        i
    }
}

/// The line that starts at `i`, without its line feed, and without a
/// carriage return just before that line feed.
pub open spec fn line_at(d: Seq<u8>, i: int) -> Seq<u8> {
    let e = line_end(d, i);
    let raw = d.subrange(i, e);
    if e < d.len() && raw.len() > 0 && raw.last() == 0x0D { raw.drop_last() } else { raw }
}

proof fn lemma_line_end_bounds(d: Seq<u8>, i: int)
    requires
        0 <= i <= d.len(),
    ensures
        i <= line_end(d, i) <= d.len(),
        line_end(d, i) < d.len() ==> d[line_end(d, i)] == 0x0A,
    decreases d.len() - i,
{
    if 0 <= i < d.len() && d[i] != 0x0A {
        lemma_line_end_bounds(d, i + 1);
    }
}

/// The effect of the lines of `d` from position `i` on.
pub open spec fn bdf_from(d: Seq<u8>, i: int, acc: BdfAcc) -> BdfAcc
    decreases d.len() - i,
{
    if i < 0 || i >= d.len() {
        acc
    } else {
        let e = line_end(d, i);
        let next = bdf_step(acc, line_at(d, i));
        if e < i || e >= d.len() {
            next
        } else {
            bdf_from(d, e + 1, next)
        }
    }
}

/// The font that a BDF text describes, as views: no glyph is set when the
/// text is not valid UTF-8.
pub open spec fn spec_parse_font(d: Seq<u8>) -> (usize, usize, Seq<GlyphView>) {
    if !valid_utf8(d) {
        (8, 16, empty_glyph_views())
    } else {
        let (st, fw, fh, glyphs) = bdf_from(d, 0, (bdf_start(), 8, 16, empty_glyph_views()));
        (fw, fh, glyphs)
    }
}

impl Font {
    /// The effect of one line of a BDF font on the font and the parser.
    fn bdf_line(&mut self, st: &mut BdfState, line: &[u8])
        requires
            old(self).wf(),
        ensures
            final(self).wf(),
            (*final(st), final(self).spec_width(), final(self).spec_height(), final(self).spec_glyph_views())
                == bdf_step((*old(st), old(self).spec_width(), old(self).spec_height(), old(self).spec_glyph_views()), line@),
    {
        let ghost acc: BdfAcc = (*st, self.width, self.height, self.spec_glyph_views());
        if starts_with(line, "FONTBOUNDINGBOX ".as_bytes()) {
            if let Some((w, h)) = two_fields(line) {
                if w > 0 && h > 0 {
                    self.width = if w < 16 { w } else { 16 };
                    self.height = if h < 16 { h } else { 16 };
                }
            }
            return;
        }
        if starts_with(line, "STARTCHAR".as_bytes()) {
            *st = BdfState { in_glyph: true, in_bitmap: false, encoding: -1, width: 0, height: 0, row: 0 };
            return;
        }
        if starts_with(line, "ENDCHAR".as_bytes()) {
            if 0 <= st.encoding && (st.encoding as usize) < GLYPH_COUNT {
                let idx = st.encoding as usize;
                let mut g = self.glyphs[idx];
                if st.width > 0 {
                    g.width = (if st.width < 16 { st.width } else { 16 }) as u8;
                }
                if st.height > 0 {
                    g.height = (if st.height < 16 { st.height } else { 16 }) as u8;
                }
                self.glyphs.set(idx, g);
                proof {
                    assert(self.spec_glyph_views() =~= acc.3.update(idx as int, g.view()));
                }
            }
            st.in_glyph = false;
            st.in_bitmap = false;
            return;
        }
        if !st.in_glyph {
            return;
        }
        if starts_with(line, "ENCODING ".as_bytes()) {
            if let Some((s, e)) = field_bounds(line, 1) {
                if let Some(v) = parse_i32(line, s, e) {
                    st.encoding = v;
                }
            }
            return;
        }
        if starts_with(line, "BBX ".as_bytes()) {
            if let Some((w, h)) = two_fields(line) {
                st.width = w;
                st.height = h;
            }
            return;
        }
        let bitmap_kw = "BITMAP".as_bytes();
        if line.len() == bitmap_kw.len() && starts_with(line, bitmap_kw) {
            proof {
                assert(line@ =~= line@.subrange(0, bitmap_kw@.len() as int));
            }
            st.in_bitmap = true;
            st.row = 0;
            return;
        }
        proof {
            if line@ == "BITMAP".spec_bytes() {
                assert(line@.subrange(0, bitmap_kw@.len() as int) =~= line@);
            }
        }
        if st.in_bitmap {
            if 0 <= st.encoding && (st.encoding as usize) < GLYPH_COUNT && st.row < GLYPH_ROWS {
                let idx = st.encoding as usize;
                let mut value = hex_u16(line);
                let w = if st.width < 16 { st.width } else { 16 };
                if w > 0 && w < 16 {
                    value = value << ((16 - w) as u32);
                }
                let mut g = self.glyphs[idx];
                g.bitmap[st.row] = value;
                self.glyphs.set(idx, g);
                proof {
                    assert(self.spec_glyph_views() =~= acc.3.update(idx as int, g.view()));
                }
            }
            if st.row < GLYPH_ROWS {
                st.row = st.row + 1;
            }
        }
    }
}

/// Fields 1 and 2 of `line` as numbers, as `two_numbers` states.
fn two_fields(line: &[u8]) -> (r: Option<(usize, usize)>)
    ensures
        r == two_numbers(line@),
{
    let a = field_bounds(line, 1);
    let b = field_bounds(line, 2);
    match (a, b) {
        (Some((s1, e1)), Some((s2, e2))) => {
            match (parse_usize(line, s1, e1), parse_usize(line, s2, e2)) {
                (Some(w), Some(h)) => Some((w, h)),
                _ => None,
            }
        },
        _ => None,
    }
}

/// Reads a font in BDF: the default cell size from `FONTBOUNDINGBOX`, and
/// for each glyph between `STARTCHAR` and `ENDCHAR` its code point
/// (`ENCODING`), size (`BBX`) and rows (the lines after `BITMAP`). Sizes
/// are capped at 16; code points outside the Basic Multilingual Plane and
/// rows past the 16th are ignored. Text that is not valid UTF-8 gives the
/// empty font. Fields are separated by ASCII whitespace only (space, tab,
/// line feed, vertical tab, form feed, carriage return); other Unicode
/// whitespace counts as part of a field, which is no loss for BDF, whose
/// keywords and numbers are ASCII.
pub fn parse_font(data: &[u8]) -> (r: Font)
    ensures
        r.wf(),
        (r.spec_width(), r.spec_height(), r.spec_glyph_views()) == spec_parse_font(data@),
{
    let mut font = Font::empty();
    proof {
        assert(font.spec_glyph_views() =~= empty_glyph_views()) by {
            assert forall|i: int| 0 <= i < GLYPH_COUNT implies font.spec_glyph_views()[i] == empty_glyph_views()[i] by {
                assert(font.spec_glyphs()[i].bitmap@ == Seq::new(GLYPH_ROWS as nat, |k: int| 0u16));
            }
        }
    }
    if str_from_utf8(data).is_none() {
        return font;
    }
    let mut st = BdfState { in_glyph: false, in_bitmap: false, encoding: -1, width: 0, height: 0, row: 0 };
    let n = data.len();
    let mut pos: usize = 0;
    while pos < n
        invariant
            n == data@.len(),
            pos <= n,
            font.wf(),
            valid_utf8(data@),
            bdf_from(data@, 0, (bdf_start(), 8, 16, empty_glyph_views()))
                == bdf_from(data@, pos as int, (st, font.spec_width(), font.spec_height(), font.spec_glyph_views())),
        decreases n - pos,
    {
        let mut e = pos;
        while e < n && data[e] != 0x0A
            invariant
                pos <= e <= n,
                n == data@.len(),
                line_end(data@, pos as int) == line_end(data@, e as int),
            decreases n - e,
        {
            e = e + 1;
        }
        proof {
            lemma_line_end_bounds(data@, e as int);
        }
        let line_stop = if e < n && e > pos && data[e - 1] == 0x0D { e - 1 } else { e };
        let line = &data[pos..line_stop];
        assert(line@ == line_at(data@, pos as int)) by {
            if e < n && e > pos && data@[e - 1] == 0x0D {
                assert(data@.subrange(pos as int, e as int).drop_last() =~= data@.subrange(pos as int, e - 1));
            }
        }
        font.bdf_line(&mut st, line);
        pos = if e < n { e + 1 } else { n };
    }
    font
}

} // verus!
