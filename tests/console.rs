use kernel_core::log::LogLevel;
use kernel_core::vga::{parse_hex_u16, CellPos, Font, Glyph, Writer, BACKGROUND, FOREGROUND};

#[test]
fn writer_advances_and_wraps() {
    let mut w = Writer::new(24, 32, 8, 16);
    let a = w.write_char('a');
    assert_eq!(a.drawn_at, Some(CellPos { x: 0, y: 0 }));
    assert!(!a.cleared);
    assert_eq!(w.write_char('b').drawn_at, Some(CellPos { x: 8, y: 0 }));
    assert_eq!(w.write_char('c').drawn_at, Some(CellPos { x: 16, y: 0 }));
    let d = w.write_char('d');
    assert_eq!(d.drawn_at, Some(CellPos { x: 0, y: 16 }));
    assert!(!d.cleared);
}

#[test]
fn writer_clears_past_last_line() {
    let mut w = Writer::new(16, 32, 8, 16);
    assert!(!w.write_char('\n').cleared);
    let n = w.write_char('\n');
    assert!(n.cleared);
    assert_eq!(n.drawn_at, None);
    assert_eq!(w.write_char('x').drawn_at, Some(CellPos { x: 0, y: 0 }));
}

#[test]
fn write_string_reports_each_character() {
    let mut w = Writer::new(80, 32, 8, 16);
    let out = w.write_string("ab\nc");
    assert_eq!(out.len(), 4);
    assert_eq!(out[1].drawn_at, Some(CellPos { x: 8, y: 0 }));
    assert_eq!(out[2].drawn_at, None);
    assert_eq!(out[3].drawn_at, Some(CellPos { x: 0, y: 16 }));
}

#[test]
fn hex_rows_parse_with_saturation() {
    assert_eq!(parse_hex_u16("00FF"), 0x00FF);
    assert_eq!(parse_hex_u16("a5"), 0xA5);
    assert_eq!(parse_hex_u16("12345"), 0xFFFF);
    assert_eq!(parse_hex_u16("zz"), 0);
    assert_eq!(parse_hex_u16(""), 0);
}

#[test]
fn glyph_lookup_falls_back_to_zero() {
    let font = Font::empty();
    assert_eq!(font.glyph(0x41).width, 0);
    assert_eq!(font.glyph(0x20_0000).height, 0);
    let g = Glyph::empty();
    assert_eq!(g.bitmap, [0u16; 16]);
}

#[test]
fn empty_glyph_draws_background() {
    let font = Font::empty();
    let w = Writer::new(80, 32, 8, 16);
    let cell = w.draw_char(&font, 'A' as u32, FOREGROUND, BACKGROUND);
    assert_eq!(cell.len(), 16);
    assert!(cell.iter().all(|row| row.len() == 8 && row.iter().all(|&c| c == BACKGROUND)));
}

#[test]
fn log_prefixes() {
    assert_eq!(LogLevel::Trace.prefix(), "[TRACE]");
    assert_eq!(LogLevel::Info.prefix(), "[INFO] ");
    assert_eq!(LogLevel::Error.prefix(), "[ERROR]");
    assert!(LogLevel::Warn > LogLevel::Debug);
}

const SAMPLE_BDF: &str = "STARTFONT 2.1\r\n\
FONTBOUNDINGBOX 8 16 0 -2\r\n\
STARTCHAR A\r\n\
ENCODING 65\r\n\
BBX 8 16 0 -2\r\n\
BITMAP\r\n\
18\r\n\
24\r\n\
ENDCHAR\r\n\
STARTCHAR narrow\n\
ENCODING 66\n\
BBX 4 4 0 0\n\
BITMAP\n\
F\n\
9\n\
ENDCHAR\n\
ENDFONT\n";

#[test]
fn parse_font_reads_glyphs() {
    let font = kernel_core::vga::parse_font(SAMPLE_BDF.as_bytes());
    let a = font.glyph(65);
    assert_eq!(a.width, 8);
    assert_eq!(a.height, 16);
    assert_eq!(a.bitmap[0], 0x1800);
    assert_eq!(a.bitmap[1], 0x2400);
    assert_eq!(a.bitmap[2], 0);
    let b = font.glyph(66);
    assert_eq!(b.width, 4);
    assert_eq!(b.height, 4);
    assert_eq!(b.bitmap[0], 0xF000);
    assert_eq!(b.bitmap[1], 0x9000);
    assert_eq!(font.glyph(67).width, 0);
}

#[test]
fn parse_font_caps_sizes_and_ignores_bad_encodings() {
    let text = "FONTBOUNDINGBOX 32 40\nSTARTCHAR x\nENCODING -5\nBBX 20 20\nBITMAP\nFFFF\nENDCHAR\nSTARTCHAR y\nENCODING 70000\nENDCHAR\n";
    let font = kernel_core::vga::parse_font(text.as_bytes());
    let w = Writer::new(80, 32, 8, 16);
    let cell = w.draw_char(&font, 0, FOREGROUND, BACKGROUND);
    assert!(cell.iter().all(|row| row.iter().all(|&c| c == BACKGROUND)));
    assert_eq!(font.glyph(0).width, 0);
}

#[test]
fn parse_font_rejects_invalid_utf8() {
    let mut bytes = b"STARTCHAR A\nENCODING 65\nBBX 8 8\nENDCHAR\n".to_vec();
    bytes.push(0xFF);
    let font = kernel_core::vga::parse_font(&bytes);
    assert_eq!(font.glyph(65).width, 0);
}

#[test]
fn draw_char_uses_glyph_bits() {
    let font = kernel_core::vga::parse_font(b"STARTCHAR A\nENCODING 65\nBBX 8 2\nBITMAP\n80\n01\nENDCHAR\n");
    let w = Writer::new(80, 32, 8, 16);
    let cell = w.draw_char(&font, 65, FOREGROUND, BACKGROUND);
    assert_eq!(cell[0][0], FOREGROUND);
    assert_eq!(cell[0][1], BACKGROUND);
    assert_eq!(cell[1][7], FOREGROUND);
    assert_eq!(cell[2][7], BACKGROUND);
}
