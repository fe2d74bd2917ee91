use vstd::prelude::*;

use crate::bitmap::{lemma_raster_ext, over, Image, Raster, Rgba};
use crate::modules::{
    hover_bg, hover_command, hover_fault, hover_fg, hover_from_toml, text_option, Block, Hover,
    MouseOutcome, RenderInput, RenderStep,
};
use crate::mouse::{ButtonState, MouseEvent};
use crate::parse_input::{
    string_entry, toml_value_to_string, Config, ConfigError, ConfigFault, Resources, Settings,
};

verus! {

/// The characters that a block's text may not carry into the rendering.
pub open spec fn is_control(c: char) -> bool {
    c == '\n' || c == '\r' || c == '\t'
}

/// `text` without its line feeds, carriage returns and tabs.
pub open spec fn stripped(text: Seq<char>) -> Seq<char>
    decreases text.len(),
{
    if text.len() == 0 {
        Seq::empty()
    } else if is_control(text.last()) {
        stripped(text.drop_last())
    } else {
        stripped(text.drop_last()).push(text.last())
    }
}

/// Calls `String::push`.
///
/// Trusted: the string afterwards is the string before with `c` appended.
#[verifier::external_body]
pub(crate) fn push_char(s: &mut String, c: char)
    ensures
        final(s)@ == old(s)@.push(c),
{
    s.push(c)
}

/// Copies `text`, leaving out line feeds, carriage returns and tabs.
pub fn strip_control(text: &str) -> (out: String)
    ensures
        out@ == stripped(text@),
{
    let mut out = String::new();
    for c in it: text.chars()
        invariant
            it.seq() == text@,
            out@ == stripped(text@.take(it.index() as int)),
    {
        assert(text@.take(it.index() + 1).drop_last() =~= text@.take(it.index() as int));
        if !(c == '\n' || c == '\r' || c == '\t') {
            push_char(&mut out, c);
        }
    }
    assert(text@.take(text@.len() as int) =~= text@);
    out
}

/// `step` asks for the glyphs of `text`, less its control characters, in the
/// font of the file `font` at the height `font_height`.
pub open spec fn asks_for_glyphs(step: RenderStep, text: Seq<char>, font: Seq<char>, font_height: u32) -> bool {
    &&& step matches RenderStep::Rasterize { text: asked, font: file, font_height: height }
    &&& asked@ == stripped(text)
    &&& file@ == font
    &&& height == font_height
}

/// Asks for the glyphs of a text: the text is stripped of its control
/// characters first.
pub fn glyph_request(text: &str, font: &String, font_height: u32) -> (step: RenderStep)
    ensures
        asks_for_glyphs(step, text@, font@, font_height),
{
    RenderStep::Rasterize { text: strip_control(text), font: font.clone(), font_height }
}

/// One rasterised glyph: how much of each pixel of its bounding box the glyph's
/// outline covers, and where that box lies on the line of text.
#[derive(Clone, Debug)]
pub struct Glyph {
    /// Left edge of the bounding box, in pixels from the line's origin.
    pub x: i32,
    /// Top edge of the bounding box, in pixels from the line's top.
    pub y: i32,
    pub width: u32,
    pub height: u32,
    /// Coverage of each pixel of the box, row by row, 0 for none to 255 for all
    /// of it.
    pub coverage: Vec<u8>,
}

/// A line of text laid out at some font height.
#[derive(Clone, Debug)]
pub struct GlyphRun {
    /// How far the line advances: the origin of its last visible glyph plus
    /// that glyph's advance width, 0 when no glyph is visible.
    pub width: u32,
    /// The visible glyphs, in the order in which they are drawn.
    pub glyphs: Vec<Glyph>,
}

impl Glyph {
    /// `(i, j)` is a pixel of the bounding box.
    pub open spec fn covers(self, i: int, j: int) -> bool {
        0 <= i < self.width && 0 <= j < self.height
    }

    /// The coverage of pixel `(i, j)` of the box; a pixel for which the glyph
    /// holds no value counts as not covered.
    pub open spec fn coverage_at(self, i: int, j: int) -> u8 {
        if self.covers(i, j) && j * self.width + i < self.coverage@.len() {
            self.coverage@[j * self.width + i]
        } else {
            0
        }
    }

    /// Reads the coverage of one pixel of the bounding box.
    pub fn coverage(&self, i: u32, j: u32) -> (c: u8)
        requires
            self.covers(i as int, j as int),
        ensures
            c == self.coverage_at(i as int, j as int),
    {
        assert(j * self.width + i <= 0xffff_ffff * 0xffff_ffff + 0xffff_ffff) by (nonlinear_arith)
            requires
                0 <= j <= 0xffff_ffff,
                0 <= self.width <= 0xffff_ffff,
                0 <= i <= 0xffff_ffff,
        ;
        let index: u64 = (j as u64) * (self.width as u64) + (i as u64);
        let len: usize = self.coverage.len();
        if index < len as u64 {
            self.coverage[index as usize]
        } else {
            0
        }
    }
}

/// Where the glyphs go inside a block's bitmap, and how wide the bitmap is.
#[derive(Copy, Clone, Debug, PartialEq, Eq, Structural)]
pub struct TextLayout {
    pub x_offset: u32,
    pub y_offset: u32,
    pub width: u32,
}

/// The layout of a line that measures `measured` pixels in a block with the
/// given minimum width and spacing.
///
/// A line narrower than the minimum width is centred in it; otherwise the block
/// is as wide as the line. The spacing is added on both sides. The line is
/// centred vertically. There is no layout when the padded width does not fit a
/// `u32`.
pub open spec fn layout_of(
    measured: u32,
    min_width: u32,
    spacing: u32,
    bar_height: u32,
    font_height: u32,
) -> Option<TextLayout> {
    let content: int = if measured < min_width { min_width as int } else { measured as int };
    let slack: int = if measured < min_width { (min_width - measured) / 2 } else { 0 };
    let rise: int = if font_height <= bar_height { (bar_height - font_height) / 2 } else { 0 };
    if content + 2 * spacing <= u32::MAX {
        Some(
            TextLayout {
                x_offset: (spacing + slack) as u32,
                y_offset: rise as u32,
                width: (content + 2 * spacing) as u32,
            },
        )
    } else {
        None
    }
}

pub fn text_layout(
    measured: u32,
    min_width: u32,
    spacing: u32,
    bar_height: u32,
    font_height: u32,
) -> (layout: Option<TextLayout>)
    ensures
        layout == layout_of(measured, min_width, spacing, bar_height, font_height),
{
    let content: u32 = if measured < min_width { min_width } else { measured };
    let slack: u32 = if measured < min_width { (min_width - measured) / 2 } else { 0 };
    let rise: u32 = if font_height <= bar_height { (bar_height - font_height) / 2 } else { 0 };
    let padded: u64 = content as u64 + 2 * (spacing as u64);
    if padded <= u32::MAX as u64 {
        Some(TextLayout { x_offset: spacing + slack, y_offset: rise, width: padded as u32 })
    } else {
        None
    }
}

/// The background repeated over `width` by `height` pixels, starting at the top
/// left corner. A background without pixels gives transparent black.
pub open spec fn tiled(bg: Raster, width: nat, height: nat) -> Raster {
    Raster::build(
        width,
        height,
        |x: int, y: int|
            if bg.width > 0 && bg.height > 0 {
                bg.at(x % (bg.width as int), y % (bg.height as int))
            } else {
                Rgba::transparent()
            },
    )
}

/// Where the background is at least as large as what is asked for, repeating
/// it comes to cutting it: the result is the background's top left corner.
pub proof fn lemma_tiled_is_cropped(bg: Raster, width: nat, height: nat)
    requires
        bg.wf(),
        0 < width <= bg.width,
        0 < height <= bg.height,
    ensures
        tiled(bg, width, height) == bg.cropped(0, 0, width, height),
{
    let a = tiled(bg, width, height);
    let b = bg.cropped(0, 0, width, height);
    assert forall|x: int, y: int| a.contains(x, y) implies a.at(x, y) == b.at(x, y) by {
        vstd::arithmetic::div_mod::lemma_small_mod(x as nat, bg.width);
        vstd::arithmetic::div_mod::lemma_small_mod(y as nat, bg.height);
    }
    lemma_raster_ext(a, b);
}

/// Fills a new bitmap with the background, repeated as often as needed.
pub fn tile_background(bg: &Image, width: u32, height: u32) -> (img: Image)
    ensures
        img@ == tiled(bg@, width as nat, height as nat),
{
    let mut img = Image::new(width, height);
    let bg_width: u32 = bg.width();
    let bg_height: u32 = bg.height();
    let ghost want = tiled(bg@, width as nat, height as nat);
    if bg_width == 0 || bg_height == 0 {
        assert(img@.rows =~~= want.rows);
        return img;
    }
    let mut y: u32 = 0;
    while y < height
        invariant
            y <= height,
            bg_width == bg@.width,
            bg_height == bg@.height,
            bg_width > 0,
            bg_height > 0,
            want == tiled(bg@, width as nat, height as nat),
            img@.wf(),
            img@.width == width,
            img@.height == height,
            forall|i: int, j: int|
                0 <= i < width && 0 <= j < y ==> img@.rows[j][i] == want.rows[j][i],
        decreases height - y,
    {
        let mut x: u32 = 0;
        while x < width
            invariant
                x <= width,
                y < height,
                bg_width == bg@.width,
                bg_height == bg@.height,
                bg_width > 0,
                bg_height > 0,
                want == tiled(bg@, width as nat, height as nat),
                img@.wf(),
                img@.width == width,
                img@.height == height,
                forall|i: int, j: int|
                    0 <= i < width && 0 <= j < y ==> img@.rows[j][i] == want.rows[j][i],
                forall|i: int| 0 <= i < x ==> img@.rows[y as int][i] == want.rows[y as int][i],
            decreases width - x,
        {
            let pixel = bg.get_pixel(x % bg_width, y % bg_height);
            img.put_pixel(x, y, pixel);
            x += 1;
        }
        y += 1;
    }
    proof {
        lemma_raster_ext(img@, want);
    }
    img
}

/// What one glyph, drawn in colour `fg` with its box shifted by `(ox, oy)`,
/// makes of the pixel `base` at `(x, y)`: inside the box the colour is blended
/// over it with the coverage as its alpha.
pub open spec fn glyph_pixel(
    base: Rgba,
    glyph: Glyph,
    fg: Rgba,
    ox: int,
    oy: int,
    x: int,
    y: int,
) -> Rgba {
    let i = x - ox - glyph.x;
    let j = y - oy - glyph.y;
    if glyph.covers(i, j) {
        over(base, fg.with_alpha(glyph.coverage_at(i, j)))
    } else {
        base
    }
}

/// The raster with one glyph drawn on it. What falls outside is cut off.
pub open spec fn with_glyph(img: Raster, glyph: Glyph, fg: Rgba, ox: int, oy: int) -> Raster {
    Raster::build(
        img.width,
        img.height,
        |x: int, y: int| glyph_pixel(img.at(x, y), glyph, fg, ox, oy, x, y),
    )
}

/// The raster with the glyphs drawn on it one after the other.
pub open spec fn with_glyphs(img: Raster, glyphs: Seq<Glyph>, fg: Rgba, ox: int, oy: int) -> Raster
    decreases glyphs.len(),
{
    if glyphs.len() == 0 {
        img
    } else {
        with_glyph(with_glyphs(img, glyphs.drop_last(), fg, ox, oy), glyphs.last(), fg, ox, oy)
    }
}

/// Blends one glyph in colour `fg` onto the bitmap, its bounding box shifted
/// right by `x_offset` and down by `y_offset`.
pub fn draw_glyph(img: &mut Image, glyph: &Glyph, fg: Rgba, x_offset: u32, y_offset: u32)
    ensures
        final(img)@ == with_glyph(old(img)@, *glyph, fg, x_offset as int, y_offset as int),
{
    let ghost before = img@;
    let ghost want = with_glyph(before, *glyph, fg, x_offset as int, y_offset as int);
    proof {
        img.lemma_view_wf();
    }
    let width: u32 = img.width();
    let height: u32 = img.height();
    let left: i64 = glyph.x as i64 + x_offset as i64;
    let top: i64 = glyph.y as i64 + y_offset as i64;
    let mut j: u32 = 0;
    while j < glyph.height
        invariant
            j <= glyph.height,
            before.wf(),
            img@.wf(),
            img@.width == before.width == width,
            img@.height == before.height == height,
            left == glyph.x + x_offset,
            top == glyph.y + y_offset,
            want == with_glyph(before, *glyph, fg, x_offset as int, y_offset as int),
            forall|x: int, y: int|
                before.contains(x, y) ==> img@.rows[y][x] == (if y - top < j {
                    want.rows[y][x]
                } else {
                    before.rows[y][x]
                }),
        decreases glyph.height - j,
    {
        let mut i: u32 = 0;
        while i < glyph.width
            invariant
                i <= glyph.width,
                j < glyph.height,
                before.wf(),
                img@.wf(),
                img@.width == before.width == width,
                img@.height == before.height == height,
                left == glyph.x + x_offset,
                top == glyph.y + y_offset,
                want == with_glyph(before, *glyph, fg, x_offset as int, y_offset as int),
                forall|x: int, y: int|
                    before.contains(x, y) ==> img@.rows[y][x] == (if y - top < j || (y - top == j
                        && x - left < i) {
                        want.rows[y][x]
                    } else {
                        before.rows[y][x]
                    }),
            decreases glyph.width - i,
        {
            let tx: i64 = left + i as i64;
            let ty: i64 = top + j as i64;
            if 0 <= tx && tx < width as i64 && 0 <= ty && ty < height as i64 {
                let mut pixel = img.get_pixel(tx as u32, ty as u32);
                let cover: u8 = glyph.coverage(i, j);
                pixel.blend(&Rgba { r: fg.r, g: fg.g, b: fg.b, a: cover });
                img.put_pixel(tx as u32, ty as u32, pixel);
            }
            i += 1;
        }
        j += 1;
    }
    proof {
        assert forall|x: int, y: int| img@.contains(x, y) implies img@.at(x, y) == want.at(x, y) by {
            assert(before.contains(x, y));
            assert(j == glyph.height);
            assert(img@.rows[y][x] == (if y - top < j {
                want.rows[y][x]
            } else {
                before.rows[y][x]
            }));
        }
        lemma_raster_ext(img@, want);
    }
}

/// Blends the glyphs of a run onto the bitmap, in their order.
pub fn draw_glyphs(img: &mut Image, glyphs: &Vec<Glyph>, fg: Rgba, x_offset: u32, y_offset: u32)
    ensures
        final(img)@ == with_glyphs(old(img)@, glyphs@, fg, x_offset as int, y_offset as int),
{
    let ghost before = img@;
    let n: usize = glyphs.len();
    let mut k: usize = 0;
    while k < n
        invariant
            k <= n,
            n == glyphs@.len(),
            img@ == with_glyphs(before, glyphs@.take(k as int), fg, x_offset as int, y_offset as int),
        decreases n - k,
    {
        draw_glyph(img, &glyphs[k], fg, x_offset, y_offset);
        proof {
            let next = glyphs@.take(k + 1);
            assert(next.drop_last() =~= glyphs@.take(k as int));
            assert(next.last() == glyphs@[k as int]);
        }
        k += 1;
    }
    assert(glyphs@.take(n as int) =~= glyphs@);
}

/// The bitmap of a block that shows a line of text: the background tiled over
/// the layout's width and the bar's height, with the glyphs drawn on it. A line
/// too wide for any layout gives a bitmap without columns.
pub open spec fn text_raster(
    bar_height: u32,
    font_height: u32,
    bg: Raster,
    fg: Rgba,
    min_width: u32,
    spacing: u32,
    run: GlyphRun,
) -> Raster {
    match layout_of(run.width, min_width, spacing, bar_height, font_height) {
        Some(layout) => with_glyphs(
            tiled(bg, layout.width as nat, bar_height as nat),
            run.glyphs@,
            fg,
            layout.x_offset as int,
            layout.y_offset as int,
        ),
        None => Raster::filled(0, bar_height as nat, Rgba::transparent()),
    }
}

/// Renders a laid-out line of text into a new bitmap.
pub fn render_text(
    bar_height: u32,
    font_height: u32,
    bg: &Image,
    fg: Rgba,
    min_width: u32,
    spacing: u32,
    run: &GlyphRun,
) -> (img: Image)
    ensures
        img@ == text_raster(bar_height, font_height, bg@, fg, min_width, spacing, *run),
{
    match text_layout(run.width, min_width, spacing, bar_height, font_height) {
        Some(layout) => {
            let mut img = tile_background(bg, layout.width, bar_height);
            draw_glyphs(&mut img, &run.glyphs, fg, layout.x_offset, layout.y_offset);
            img
        },
        None => Image::new(0, bar_height),
    }
}

/// The command that a click starts: the block's click command, on an event that
/// reports a released button.
pub open spec fn click_of(click_command: Option<String>, mouse_event: Option<MouseEvent>) -> Option<
    String,
> {
    match mouse_event {
        Some(event) => if event.state == Some(ButtonState::RELEASED) {
            click_command
        } else {
            None
        },
        None => None,
    }
}

/// Decides which command, if any, a pointer event starts.
pub fn click_command_for(click_command: &Option<String>, mouse_event: &Option<MouseEvent>) -> (spawn:
    Option<String>)
    ensures
        spawn == click_of(*click_command, *mouse_event),
{
    match mouse_event {
        Some(event) => match event.state {
            Some(ButtonState::RELEASED) => match click_command {
                Some(command) => Some(command.clone()),
                None => None,
            },
            _ => None,
        },
        None => None,
    }
}

/// A block that shows a fixed line of text.
#[derive(Debug)]
pub struct TextBlock {
    pub bar_height: u32,
    pub font_height: u32,
    /// The font file that the text is set in.
    pub font: String,
    pub bg_col: Image,
    pub fg_col: Rgba,
    pub text: String,
    /// The least width of the text area, without the spacing.
    pub width: u32,
    pub spacing: u32,
    /// The bitmap of the last rendering, while it is still good.
    pub cache: Option<Image>,
    pub hover_bg_col: Image,
    pub hover_fg_col: Rgba,
    pub click_command: Option<String>,
    pub hover: bool,
}

impl TextBlock {
    /// The block after it has been told whether the pointer is over it: a
    /// change of the hover state is taken over and empties the cache.
    pub open spec fn after_mouse(self, inside: bool) -> TextBlock {
        if self.hover != inside {
            TextBlock { hover: inside, cache: None, ..self }
        } else {
            self
        }
    }

    /// The foreground colour that the block is drawn in right now.
    pub open spec fn shown_fg(self) -> Rgba {
        if self.hover {
            self.hover_fg_col
        } else {
            self.fg_col
        }
    }

    /// The background that the block is drawn on right now.
    pub open spec fn shown_bg(self) -> Image {
        if self.hover {
            self.hover_bg_col
        } else {
            self.bg_col
        }
    }

    /// The bitmap that the block makes of the glyphs of its text.
    pub open spec fn rendering(self, run: GlyphRun) -> Raster {
        text_raster(
            self.bar_height,
            self.font_height,
            self.shown_bg()@,
            self.shown_fg(),
            self.width,
            self.spacing,
            run,
        )
    }

    /// Why settings give no text block, or `None` where they give one: they
    /// must hold a font height and a font.
    pub open spec fn assembly_fault(config: Settings) -> Option<ConfigFault> {
        if config.font_height is None {
            Some(ConfigFault::FontHeightRequired)
        } else if config.font is None {
            Some(ConfigFault::FontRequired)
        } else {
            None
        }
    }

    /// `block` is the text block that the settings, the text, the hover colours
    /// and the click command make: the font is the settings' font, no higher
    /// than the bar; the cache is empty and the pointer is not over the block.
    pub open spec fn assembled(
        config: Settings,
        text: Seq<char>,
        hover_bg: Raster,
        hover_fg: Rgba,
        click_command: Option<Seq<char>>,
        block: TextBlock,
    ) -> bool {
        &&& block.bar_height == config.bar_height
        &&& config.font_height matches Some(height)
        &&& block.font_height == (if height < config.bar_height {
            height
        } else {
            config.bar_height
        })
        &&& config.font matches Some(font)
        &&& block.font@ == font
        &&& block.bg_col@ == config.bg
        &&& block.fg_col == config.fg
        &&& block.text@ == text
        &&& block.width == config.width
        &&& block.spacing == config.spacing
        &&& block.cache is None
        &&& block.hover_bg_col@ == hover_bg
        &&& block.hover_fg_col == hover_fg
        &&& text_option(block.click_command) == click_command
        &&& !block.hover
    }

    /// Makes a text block of settings, its text and its hover settings.
    pub fn new(config: Config, text: String, hover: Hover) -> (res: Result<
        Block,
        ConfigError,
    >)
        ensures
            match res {
                Ok(Block::Text(block)) => {
                    &&& TextBlock::assembly_fault(config.settings()) is None
                    &&& TextBlock::assembled(
                        config.settings(),
                        text@,
                        hover.bg@,
                        hover.fg,
                        text_option(hover.command),
                        block,
                    )
                },
                Ok(_) => false,
                Err(e) => TextBlock::assembly_fault(config.settings()) == Some(e@),
            },
    {
        let font_height: u32 = match config.font_height {
            Some(height) => if height < config.bar_height {
                height
            } else {
                config.bar_height
            },
            None => {
                return Err(ConfigError::FontHeightRequired);
            },
        };
        let font = match config.font {
            Some(font) => font,
            None => {
                return Err(ConfigError::FontRequired);
            },
        };
        Ok(
            Block::Text(
                TextBlock {
                    bar_height: config.bar_height,
                    font_height,
                    font,
                    bg_col: config.bg,
                    fg_col: config.fg,
                    text,
                    width: config.width,
                    spacing: config.spacing,
                    cache: None,
                    hover_bg_col: hover.bg,
                    hover_fg_col: hover.fg,
                    click_command: hover.command,
                    hover: false,
                },
            ),
        )
    }

    /// Why a declaration gives no text block, or `None` where it gives one: the
    /// text must be there, the files that the declaration names must have been
    /// tried, and the settings must hold a font height and a font.
    pub open spec fn fault(
        config: Settings,
        value: toml::Value,
        home: Seq<char>,
        resources: Resources,
    ) -> Option<ConfigFault> {
        if string_entry(value, "text"@) is Err {
            Some(string_entry(value, "text"@)->Err_0)
        } else if hover_fault(value, home, resources) is Some {
            hover_fault(value, home, resources)
        } else {
            TextBlock::assembly_fault(config)
        }
    }

    /// `block` is the text block that the declaration gives: it shows the
    /// declaration's `text`, and under the pointer it looks and does what the
    /// declaration's `mouse` table says.
    pub open spec fn created(
        config: Settings,
        value: toml::Value,
        home: Seq<char>,
        resources: Resources,
        block: TextBlock,
    ) -> bool {
        &&& string_entry(value, "text"@) matches Ok(text)
        &&& TextBlock::assembled(
            config,
            text,
            hover_bg(config.bg, value, home, resources),
            hover_fg(config.fg, value, home, resources),
            hover_command(value, home, resources),
            block,
        )
    }

    /// Makes a text block from the settings it starts from and its declaration.
    pub fn create(config: Config, value: &toml::Value, home: &str, resources: &Resources) -> (res:
        Result<Block, ConfigError>)
        ensures
            match res {
                Ok(Block::Text(block)) => {
                    &&& TextBlock::fault(config.settings(), *value, home@, *resources) is None
                    &&& TextBlock::created(config.settings(), *value, home@, *resources, block)
                },
                Ok(_) => false,
                Err(e) => TextBlock::fault(config.settings(), *value, home@, *resources) == Some(e@),
            },
    {
        let text = match toml_value_to_string(value, "text") {
            Ok(text) => text,
            Err(e) => {
                return Err(e);
            },
        };
        let hover = match hover_from_toml(&config, value, home, resources) {
            Ok(hover) => hover,
            Err(e) => {
                return Err(e);
            },
        };
        TextBlock::new(config, text, hover)
    }

    /// A text block never changes by itself: it has no refresh interval.
    pub fn start_interval(&self) -> (period: Option<u32>)
        ensures
            period is None,
    {
        None
    }

    /// Tells the block where the pointer is: `Some` when it is over the block,
    /// `None` when it is not.
    ///
    /// The hover state follows, and a change of it empties the cache and asks
    /// for a redraw. A released button over the block starts the block's click
    /// command.
    pub fn mouse_event(&mut self, mouse_event: Option<MouseEvent>) -> (out: MouseOutcome)
        ensures
            *final(self) == old(self).after_mouse(mouse_event is Some),
            out.redraw == (old(self).hover != (mouse_event is Some)),
            out.spawn == click_of(old(self).click_command, mouse_event),
    {
        let spawn = click_command_for(&self.click_command, &mouse_event);
        let inside: bool = mouse_event.is_some();
        if self.hover != inside {
            self.hover = inside;
            self.cache = None;
            MouseOutcome { redraw: true, spawn }
        } else {
            MouseOutcome { redraw: false, spawn }
        }
    }

    /// What one step of rendering does, from the block `before` and the input
    /// to the block `after` and the answer.
    ///
    /// While the cache holds a bitmap, that bitmap is the answer whatever the
    /// input is. Without one, the block asks for the glyphs of its text, less
    /// the control characters; handed glyphs, it draws them in the colours of
    /// its hover state, keeps the bitmap and returns it.
    pub open spec fn rendered(
        before: TextBlock,
        input: RenderInput,
        after: TextBlock,
        step: RenderStep,
    ) -> bool {
        match before.cache {
            Some(cached) => {
                &&& after == before
                &&& step matches RenderStep::Done(img)
                &&& img@ == cached@
            },
            None => match input {
                RenderInput::Glyphs(run) => {
                    &&& step matches RenderStep::Done(img)
                    &&& img@ == before.rendering(run)
                    &&& after.cache matches Some(kept)
                    &&& kept@ == img@
                    &&& after == (TextBlock { cache: after.cache, ..before })
                },
                _ => {
                    &&& after == before
                    &&& asks_for_glyphs(step, before.text@, before.font@, before.font_height)
                },
            },
        }
    }

    /// One step of rendering the block.
    pub fn render(&mut self, input: RenderInput) -> (step: RenderStep)
        ensures
            TextBlock::rendered(*old(self), input, *final(self), step),
    {
        if let Some(cached) = &self.cache {
            return RenderStep::Done(cached.clone());
        }
        match input {
            RenderInput::Glyphs(run) => {
                let img = if self.hover {
                    render_text(
                        self.bar_height,
                        self.font_height,
                        &self.hover_bg_col,
                        self.hover_fg_col,
                        self.width,
                        self.spacing,
                        &run,
                    )
                } else {
                    render_text(
                        self.bar_height,
                        self.font_height,
                        &self.bg_col,
                        self.fg_col,
                        self.width,
                        self.spacing,
                        &run,
                    )
                };
                self.cache = Some(img.clone());
                RenderStep::Done(img)
            },
            _ => glyph_request(self.text.as_str(), &self.font, self.font_height),
        }
    }
}

/// Removing the control characters twice removes no more than once.
pub proof fn lemma_stripped_twice(text: Seq<char>)
    ensures
        stripped(stripped(text)) == stripped(text),
    decreases text.len(),
{
    if text.len() > 0 {
        lemma_stripped_twice(text.drop_last());
        if !is_control(text.last()) {
            let kept = stripped(text.drop_last()).push(text.last());
            assert(kept.drop_last() =~= stripped(text.drop_last()));
        }
    }
}

/// What is left of a text has no control character in it.
pub proof fn lemma_stripped_clean(text: Seq<char>, i: int)
    requires
        0 <= i < stripped(text).len(),
    ensures
        !is_control(stripped(text)[i]),
    decreases text.len(),
{
    if text.len() > 0 {
        if i < stripped(text.drop_last()).len() {
            lemma_stripped_clean(text.drop_last(), i);
        }
    }
}

/// Line feeds, carriage returns and tabs in a block's text make no difference:
/// whatever a block answers to a rendering, the block whose text has them taken
/// out already answers the same, and the two are left in states that differ in
/// nothing but that text.
pub proof fn lemma_control_characters_ignored(
    block: TextBlock,
    clean: TextBlock,
    input: RenderInput,
    after: TextBlock,
    step: RenderStep,
)
    requires
        clean.text@ == stripped(block.text@),
        clean == (TextBlock { text: clean.text, ..block }),
        TextBlock::rendered(block, input, after, step),
    ensures
        TextBlock::rendered(clean, input, TextBlock { text: clean.text, ..after }, step),
        forall|run: GlyphRun| clean.rendering(run) == block.rendering(run),
{
    lemma_stripped_twice(block.text@);
}

} // verus!
