use vstd::prelude::*;

use crate::bitmap::{Image, Raster, Rgba};
use crate::modules::text::{
    asks_for_glyphs, click_command_for, click_of, glyph_request, render_text, text_raster,
    GlyphRun,
};
use crate::modules::{
    hover_bg, hover_command, hover_fault, hover_fg, hover_from_toml, text_option, Block, Hover,
    MouseOutcome, RenderInput, RenderStep,
};
use crate::mouse::MouseEvent;
use crate::parse_input::{
    string_entry, toml_value_to_string, Config, ConfigError, ConfigFault, Resources, Settings,
};

verus! {

/// The text that `String::from_utf8_lossy` makes of a sequence of bytes.
pub uninterp spec fn utf8_lossy(bytes: Seq<u8>) -> Seq<char>;

/// Calls `String::from_utf8_lossy` and takes the text as a `String`.
///
/// Trusted: the text depends on the bytes alone. Nothing is said here of what
/// it is.
#[verifier::external_body]
fn decode_lossy(bytes: &Vec<u8>) -> (text: String)
    ensures
        text@ == utf8_lossy(bytes@),
{
    String::from_utf8_lossy(bytes).into_owned()
}

/// A block that shows what a shell command prints.
#[derive(Debug)]
pub struct CommandBlock {
    pub bar_height: u32,
    pub font_height: u32,
    /// The font file that the output is set in.
    pub font: String,
    pub bg_col: Image,
    pub fg_col: Rgba,
    /// The least width of the text area, without the spacing.
    pub width: u32,
    pub spacing: u32,
    pub command: String,
    /// Milliseconds between two refreshes; 0 for none.
    pub interval: u32,
    /// The bitmap of the last rendering, while it is still good.
    pub cache: Option<Image>,
    pub hover_bg_col: Image,
    pub hover_fg_col: Rgba,
    pub click_command: Option<String>,
    pub hover: bool,
}

impl CommandBlock {
    /// The block after it has been told whether the pointer is over it: a
    /// change of the hover state is taken over and empties the cache.
    pub open spec fn after_mouse(self, inside: bool) -> CommandBlock {
        if self.hover != inside {
            CommandBlock { hover: inside, cache: None, ..self }
        } else {
            self
        }
    }

    /// The foreground colour that the block is drawn in right now.
    pub open spec fn shown_fg(self) -> Rgba {
        if self.hover {
            self.hover_fg_col
        } else {
            self.fg_col
        }
    }

    /// The background that the block is drawn on right now.
    pub open spec fn shown_bg(self) -> Image {
        if self.hover {
            self.hover_bg_col
        } else {
            self.bg_col
        }
    }

    /// The bitmap that the block makes of the glyphs of its command's output.
    pub open spec fn rendering(self, run: GlyphRun) -> Raster {
        text_raster(
            self.bar_height,
            self.font_height,
            self.shown_bg()@,
            self.shown_fg(),
            self.width,
            self.spacing,
            run,
        )
    }

    /// The bitmap that stands for output that could not be had: as high as the
    /// bar and without a single column.
    pub open spec fn blank(self) -> Raster {
        Raster::filled(0, self.bar_height as nat, Rgba::transparent())
    }

    /// Why settings give no command block, or `None` where they give one: they
    /// must hold a font height and a font.
    pub open spec fn assembly_fault(config: Settings) -> Option<ConfigFault> {
        if config.font_height is None {
            Some(ConfigFault::FontHeightRequired)
        } else if config.font is None {
            Some(ConfigFault::FontRequired)
        } else {
            None
        }
    }

    /// `block` is the command block that the settings, the command, the hover
    /// colours and the click command make: the font is the settings' font, no
    /// higher than the bar; the cache is empty and the pointer is not over the
    /// block.
    pub open spec fn assembled(
        config: Settings,
        command: Seq<char>,
        hover_bg: Raster,
        hover_fg: Rgba,
        click_command: Option<Seq<char>>,
        block: CommandBlock,
    ) -> bool {
        &&& block.bar_height == config.bar_height
        &&& config.font_height matches Some(height)
        &&& block.font_height == (if height < config.bar_height {
            height
        } else {
            config.bar_height
        })
        &&& config.font matches Some(font)
        &&& block.font@ == font
        &&& block.bg_col@ == config.bg
        &&& block.fg_col == config.fg
        &&& block.command@ == command
        &&& block.width == config.width
        &&& block.spacing == config.spacing
        &&& block.interval == config.interval
        &&& block.cache is None
        &&& block.hover_bg_col@ == hover_bg
        &&& block.hover_fg_col == hover_fg
        &&& text_option(block.click_command) == click_command
        &&& !block.hover
    }

    /// Makes a command block of settings, its command and its hover settings.
    pub fn new(config: Config, command: String, hover: Hover) -> (res: Result<
        Block,
        ConfigError,
    >)
        ensures
            match res {
                Ok(Block::Command(block)) => {
                    &&& CommandBlock::assembly_fault(config.settings()) is None
                    &&& CommandBlock::assembled(
                        config.settings(),
                        command@,
                        hover.bg@,
                        hover.fg,
                        text_option(hover.command),
                        block,
                    )
                },
                Ok(_) => false,
                Err(e) => CommandBlock::assembly_fault(config.settings()) == Some(e@),
            },
    {
        let font_height: u32 = match config.font_height {
            Some(height) => if height < config.bar_height {
                height
            } else {
                config.bar_height
            },
            None => {
                return Err(ConfigError::FontHeightRequired);
            },
        };
        let font = match config.font {
            Some(font) => font,
            None => {
                return Err(ConfigError::FontRequired);
            },
        };
        Ok(
            Block::Command(
                CommandBlock {
                    bar_height: config.bar_height,
                    font_height,
                    font,
                    bg_col: config.bg,
                    fg_col: config.fg,
                    command,
                    width: config.width,
                    spacing: config.spacing,
                    interval: config.interval,
                    cache: None,
                    hover_bg_col: hover.bg,
                    hover_fg_col: hover.fg,
                    click_command: hover.command,
                    hover: false,
                },
            ),
        )
    }

    /// Why a declaration gives no command block, or `None` where it gives one:
    /// the command must be there, the files that the declaration names must
    /// have been tried, and the settings must hold a font height and a font.
    pub open spec fn fault(
        config: Settings,
        value: toml::Value,
        home: Seq<char>,
        resources: Resources,
    ) -> Option<ConfigFault> {
        if string_entry(value, "command"@) is Err {
            Some(string_entry(value, "command"@)->Err_0)
        } else if hover_fault(value, home, resources) is Some {
            hover_fault(value, home, resources)
        } else {
            CommandBlock::assembly_fault(config)
        }
    }

    /// `block` is the command block that the declaration gives: it shows the
    /// output of the declaration's `command`, and under the pointer it looks
    /// and does what the declaration's `mouse` table says.
    pub open spec fn created(
        config: Settings,
        value: toml::Value,
        home: Seq<char>,
        resources: Resources,
        block: CommandBlock,
    ) -> bool {
        &&& string_entry(value, "command"@) matches Ok(command)
        &&& CommandBlock::assembled(
            config,
            command,
            hover_bg(config.bg, value, home, resources),
            hover_fg(config.fg, value, home, resources),
            hover_command(value, home, resources),
            block,
        )
    }

    /// Makes a command block from the settings it starts from and its
    /// declaration.
    pub fn create(config: Config, value: &toml::Value, home: &str, resources: &Resources) -> (res:
        Result<Block, ConfigError>)
        ensures
            match res {
                Ok(Block::Command(block)) => {
                    &&& CommandBlock::fault(config.settings(), *value, home@, *resources) is None
                    &&& CommandBlock::created(config.settings(), *value, home@, *resources, block)
                },
                Ok(_) => false,
                Err(e) => CommandBlock::fault(config.settings(), *value, home@, *resources) == Some(e@),
            },
    {
        let command = match toml_value_to_string(value, "command") {
            Ok(command) => command,
            Err(e) => {
                return Err(e);
            },
        };
        let hover = match hover_from_toml(&config, value, home, resources) {
            Ok(hover) => hover,
            Err(e) => {
                return Err(e);
            },
        };
        CommandBlock::new(config, command, hover)
    }

    /// The period in milliseconds at which the block wants its cache emptied,
    /// if it wants that at all.
    pub fn start_interval(&self) -> (period: Option<u32>)
        ensures
            period == (if self.interval > 0 {
                Some(self.interval)
            } else {
                None
            }),
    {
        if self.interval > 0 {
            Some(self.interval)
        } else {
            None
        }
    }

    /// Tells the block where the pointer is: `Some` when it is over the block,
    /// `None` when it is not.
    ///
    /// The hover state follows, and a change of it empties the cache and asks
    /// for a redraw. A released button over the block starts the block's click
    /// command.
    pub fn mouse_event(&mut self, mouse_event: Option<MouseEvent>) -> (out: MouseOutcome)
        ensures
            *final(self) == old(self).after_mouse(mouse_event is Some),
            out.redraw == (old(self).hover != (mouse_event is Some)),
            out.spawn == click_of(old(self).click_command, mouse_event),
    {
        let spawn = click_command_for(&self.click_command, &mouse_event);
        let inside: bool = mouse_event.is_some();
        if self.hover != inside {
            self.hover = inside;
            self.cache = None;
            MouseOutcome { redraw: true, spawn }
        } else {
            MouseOutcome { redraw: false, spawn }
        }
    }

    /// What one step of rendering does, from the block `before` and the input
    /// to the block `after` and the answer.
    ///
    /// While the cache holds a bitmap, that bitmap is the answer whatever the
    /// input is, and no command is asked for. Without one, the block first asks
    /// for its command to be run. Handed the output, it asks for the glyphs of
    /// the output's text, less the control characters. Handed glyphs, it draws
    /// them in the colours of its hover state, keeps the bitmap in the cache
    /// and returns it. Told that the command failed, it answers with a bitmap
    /// without columns and keeps nothing: the failure may pass, and the next
    /// rendering asks for the command again.
    pub open spec fn rendered(
        before: CommandBlock,
        input: RenderInput,
        after: CommandBlock,
        step: RenderStep,
    ) -> bool {
        match before.cache {
            Some(cached) => {
                &&& after == before
                &&& step matches RenderStep::Done(img)
                &&& img@ == cached@
            },
            None => match input {
                RenderInput::Start => {
                    &&& after == before
                    &&& step matches RenderStep::Run(command)
                    &&& command@ == before.command@
                },
                RenderInput::Output(bytes) => {
                    &&& after == before
                    &&& asks_for_glyphs(
                        step,
                        utf8_lossy(bytes@),
                        before.font@,
                        before.font_height,
                    )
                },
                RenderInput::Failed => {
                    &&& after == before
                    &&& step matches RenderStep::Done(img)
                    &&& img@ == before.blank()
                },
                RenderInput::Glyphs(run) => {
                    &&& step matches RenderStep::Done(img)
                    &&& img@ == before.rendering(run)
                    &&& after.cache matches Some(kept)
                    &&& kept@ == img@
                    &&& after == (CommandBlock { cache: after.cache, ..before })
                },
            },
        }
    }

    /// One step of rendering the block.
    pub fn render(&mut self, input: RenderInput) -> (step: RenderStep)
        ensures
            CommandBlock::rendered(*old(self), input, *final(self), step),
    {
        if let Some(cached) = &self.cache {
            return RenderStep::Done(cached.clone());
        }
        match input {
            RenderInput::Start => RenderStep::Run(self.command.clone()),
            RenderInput::Output(bytes) => {
                let text = decode_lossy(&bytes);
                glyph_request(text.as_str(), &self.font, self.font_height)
            },
            RenderInput::Failed => RenderStep::Done(Image::new(0, self.bar_height)),
            RenderInput::Glyphs(run) => {
                let img = if self.hover {
                    render_text(
                        self.bar_height,
                        self.font_height,
                        &self.hover_bg_col,
                        self.hover_fg_col,
                        self.width,
                        self.spacing,
                        &run,
                    )
                } else {
                    render_text(
                        self.bar_height,
                        self.font_height,
                        &self.bg_col,
                        self.fg_col,
                        self.width,
                        self.spacing,
                        &run,
                    )
                };
                self.cache = Some(img.clone());
                RenderStep::Done(img)
            },
        }
    }
}

} // verus!
