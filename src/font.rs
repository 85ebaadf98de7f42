use vstd::prelude::*;
use crate::command::{GpuCommand, Rgb};

verus! {

/// Number of cached codepoints: ASCII 0 to 127.
pub const GLYPH_COUNT: usize = 128;

/// Metrics and texture of one rasterised glyph.
#[derive(Clone, Copy, Debug, PartialEq, Eq, Structural)]
pub struct Glyph {
    pub texture_id: u32,
    pub width: u32,
    pub rows: u32,
    pub left: i32,
    pub top: i32,
    /// Horizontal advance in 1/64 pixel.
    pub advance: u32,
}

/// Vertex array and buffer shared by all quads of a face.
#[derive(Clone, Copy, Debug, PartialEq, Eq, Structural)]
pub struct FontGpu {
    pub vao: u32,
    pub vbo: u32,
}

/// A font face: its file; `loaded` is set once, when its upload is requested; once
/// uploaded, its glyph cache (indexed by codepoint) and its quad buffer.
pub struct Font {
    pub font_path: Vec<u8>,
    pub loaded: bool,
    pub glyphs: Vec<Glyph>,
    pub gpu: Option<FontGpu>,
}

impl Font {
    pub open spec fn wf(&self) -> bool {
        self.gpu is Some ==> self.glyphs@.len() == GLYPH_COUNT
    }

    pub fn new(font_path: Vec<u8>) -> (r: Font)
        ensures
            r.font_path == font_path,
            !r.loaded,
            r.glyphs@.len() == 0,
            r.gpu is None,
            r.wf(),
    {
        Font { font_path, loaded: false, glyphs: Vec::new(), gpu: None }
    }

    /// Fills the glyph cache once; a face whose cache is filled stays as it is.
    pub fn load(&mut self, glyphs: Vec<Glyph>, vao: u32, vbo: u32)
        requires
            old(self).wf(),
            glyphs@.len() == GLYPH_COUNT,
        ensures
            old(self).gpu is Some ==> *final(self) == *old(self),
            old(self).gpu is None ==> final(self).glyphs@ == glyphs@ && final(self).gpu == Some(
                FontGpu { vao, vbo },
            ) && final(self).font_path == old(self).font_path && final(self).loaded == old(self).loaded,
            final(self).wf(),
    {
        if self.gpu.is_some() {
            return;
        }
        self.glyphs = glyphs;
        self.gpu = Some(FontGpu { vao, vbo });
    }
}

/// The cached glyph of a character, if its codepoint is in the cache.
pub open spec fn glyph_for(cache: Seq<Glyph>, c: char) -> Option<Glyph> {
    if (c as u32) < cache.len() {
        Some(cache[c as u32 as int])
    } else {
        None
    }
}

/// How far a glyph moves the pen: whole pixels of its advance, times the scale.
pub open spec fn pen_step(g: Glyph, scale: u32) -> int {
    (g.advance as int / 64) * scale as int
}

/// The quad of a glyph drawn with the pen at (pen, y).
pub open spec fn glyph_quad(g: Glyph, vbo: u32, pen: int, y: int, scale: u32) -> GpuCommand {
    GpuCommand::DrawGlyph {
        texture: g.texture_id,
        vbo,
        x: (pen + g.left as int * scale as int) as i128,
        y: (y - (g.rows as int - g.top as int) * scale as int) as i128,
        width: (g.width as int * scale as int) as i128,
        height: (g.rows as int * scale as int) as i128,
    }
}

/// Quads and final pen position after the first `n` characters; characters outside
/// the cache are skipped.
pub open spec fn layout(
    cache: Seq<Glyph>,
    vbo: u32,
    text: Seq<char>,
    x: int,
    y: int,
    scale: u32,
    n: nat,
) -> (Seq<GpuCommand>, int)
    decreases n,
{
    if n == 0 || n > text.len() {
        (seq![], x)
    } else {
        let prev = layout(cache, vbo, text, x, y, scale, (n - 1) as nat);
        match glyph_for(cache, text[n - 1]) {
            None => prev,
            Some(g) => (prev.0.push(glyph_quad(g, vbo, prev.1, y, scale)), prev.1 + pen_step(g, scale)),
        }
    }
}

/// Number of characters of the first `n` that have a cached glyph.
pub open spec fn cached_count(cache: Seq<Glyph>, text: Seq<char>, n: nat) -> nat
    decreases n,
{
    if n == 0 || n > text.len() {
        0
    } else {
        cached_count(cache, text, (n - 1) as nat) + if glyph_for(cache, text[n - 1]) is Some {
            1nat
        } else {
            0nat
        }
    }
}

/// The commands that draw a string: text state set up, one quad per cached glyph, state reset.
pub open spec fn text_commands(
    cache: Seq<Glyph>,
    vao: u32,
    vbo: u32,
    color: Rgb,
    text: Seq<char>,
    x: int,
    y: int,
    scale: u32,
) -> Seq<GpuCommand> {
    seq![GpuCommand::BeginText { color, vao }] + layout(
        cache,
        vbo,
        text,
        x,
        y,
        scale,
        text.len(),
    ).0 + seq![GpuCommand::EndText]
}

/// Upper bound of one pen step: advances are below 2^32/64 = 2^26, scales below 2^32.
pub open spec fn max_step() -> int {
    0x400_0000_0000_0000
}

proof fn lemma_step_bound(g: Glyph, scale: u32)
    ensures
        0 <= pen_step(g, scale) <= max_step(),
{
    let a = g.advance as int / 64;
    assert(0 <= a < 0x400_0000);
    assert(0 <= a * scale as int <= 0x400_0000 * 0x1_0000_0000) by (nonlinear_arith)
        requires
            0 <= a < 0x400_0000,
            0 <= scale as int <= 0xffff_ffff,
    ;
}

proof fn lemma_layout_len(cache: Seq<Glyph>, vbo: u32, text: Seq<char>, x: int, y: int, scale: u32, n: nat)
    requires
        n <= text.len(),
    ensures
        layout(cache, vbo, text, x, y, scale, n).0.len() == cached_count(cache, text, n),
        x <= layout(cache, vbo, text, x, y, scale, n).1 <= x + n * max_step(),
    decreases n,
{
    if n > 0 {
        lemma_layout_len(cache, vbo, text, x, y, scale, (n - 1) as nat);
        if let Some(g) = glyph_for(cache, text[n - 1]) {
            lemma_step_bound(g, scale);
        }
        assert(x + (n - 1) * max_step() + max_step() == x + n * max_step()) by (nonlinear_arith);
    }
}

/// The quads of a string: one per character with a cached glyph, laid out left to
/// right from `position`; characters without a glyph are skipped and the run goes on.
pub fn render_text(
    glyphs: &Vec<Glyph>,
    vao: u32,
    vbo: u32,
    color: Rgb,
    text: &Vec<char>,
    position: (i32, i32),
    scale: u32,
) -> (r: Vec<GpuCommand>)
    ensures
        r@ == text_commands(glyphs@, vao, vbo, color, text@, position.0 as int, position.1 as int, scale),
        r@.len() == cached_count(glyphs@, text@, text@.len()) + 2,
{
    let mut out: Vec<GpuCommand> = Vec::new();
    out.push(GpuCommand::BeginText { color, vao });
    let ghost x0 = position.0 as int;
    let ghost y0 = position.1 as int;
    let y: i128 = position.1 as i128;
    let mut pen: i128 = position.0 as i128;
    let mut i: usize = 0;
    while i < text.len()
        invariant
            i <= text@.len(),
            x0 == position.0 as int,
            y0 == position.1 as int,
            y as int == y0,
            out@ == seq![GpuCommand::BeginText { color, vao }] + layout(glyphs@, vbo, text@, x0, y0, scale, i as nat).0,
            pen as int == layout(glyphs@, vbo, text@, x0, y0, scale, i as nat).1,
            x0 <= pen as int <= x0 + i * max_step(),
        decreases text@.len() - i,
    {
        proof {
            lemma_layout_len(glyphs@, vbo, text@, x0, y0, scale, (i + 1) as nat);
            assert((i + 1) * max_step() <= 0x1_0000_0000_0000_0000 * max_step()) by (nonlinear_arith)
                requires
                    i < 0x1_0000_0000_0000_0000,
            ;
        }
        let c = text[i];
        let code = c as u32;
        if (code as usize) < glyphs.len() {
            let g = glyphs[code as usize];
            let s = scale as i128;
            proof {
                let sc = scale as int;
                assert(-0x8000_0000 * 0x1_0000_0000 <= g.left as int * sc <= 0x8000_0000 * 0x1_0000_0000)
                    by (nonlinear_arith)
                    requires
                        -0x8000_0000 <= g.left as int <= 0x8000_0000,
                        0 <= sc <= 0xffff_ffff,
                ;
                assert(-0x2_0000_0000 * 0x1_0000_0000 <= (g.rows as int - g.top as int) * sc
                    <= 0x2_0000_0000 * 0x1_0000_0000) by (nonlinear_arith)
                    requires
                        -0x2_0000_0000 <= g.rows as int - g.top as int <= 0x2_0000_0000,
                        0 <= sc <= 0xffff_ffff,
                ;
                assert(0 <= g.width as int * sc <= 0x1_0000_0000 * 0x1_0000_0000) by (nonlinear_arith)
                    requires
                        0 <= g.width as int <= 0x1_0000_0000,
                        0 <= sc <= 0xffff_ffff,
                ;
                assert(0 <= g.rows as int * sc <= 0x1_0000_0000 * 0x1_0000_0000) by (nonlinear_arith)
                    requires
                        0 <= g.rows as int <= 0x1_0000_0000,
                        0 <= sc <= 0xffff_ffff,
                ;
            }
            let qx: i128 = pen + g.left as i128 * s;
            let qy: i128 = y - (g.rows as i128 - g.top as i128) * s;
            let qw: i128 = g.width as i128 * s;
            let qh: i128 = g.rows as i128 * s;
            out.push(GpuCommand::DrawGlyph { texture: g.texture_id, vbo, x: qx, y: qy, width: qw, height: qh });
            proof {
                let a = g.advance;
                assert(a >> 6u32 == a / 64) by (bit_vector);
                lemma_step_bound(g, scale);
            }
            let step: i128 = (g.advance >> 6u32) as i128 * s;
            pen = pen + step;
        }
        i += 1;
    }
    out.push(GpuCommand::EndText);
    proof {
        lemma_layout_len(glyphs@, vbo, text@, x0, y0, scale, text@.len());
    }
    out
}

/// Drawing two cached characters makes two quads and moves the pen by the sum of
/// their scaled advances.
pub proof fn lemma_two_glyph_layout(
    cache: Seq<Glyph>,
    vbo: u32,
    a: char,
    b: char,
    x: int,
    y: int,
    scale: u32,
)
    requires
        glyph_for(cache, a) is Some,
        glyph_for(cache, b) is Some,
    ensures
        ({
            let l = layout(cache, vbo, seq![a, b], x, y, scale, 2);
            &&& l.0.len() == 2
            &&& l.1 == x + pen_step(glyph_for(cache, a)->Some_0, scale) + pen_step(
                glyph_for(cache, b)->Some_0,
                scale,
            )
        }),
{
    let t = seq![a, b];
    assert(t[0] == a && t[1] == b);
    reveal_with_fuel(layout, 3);
}

} // verus!
