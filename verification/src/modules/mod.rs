use vstd::prelude::*;

use crate::bitmap::{Image, Raster, Rgba};
use crate::modules::command::CommandBlock;
use crate::modules::text::{click_of, GlyphRun, TextBlock};
use crate::mouse::MouseEvent;
use crate::parse_input::{
    asks, entry_of, image_entry, image_result, or_fallback, plain_result, rgba_entry,
    string_entry, text_result, toml_get, toml_value_to_image, toml_value_to_rgba,
    toml_value_to_string, Config, ConfigError, ConfigFault, Resources, Settings,
};

pub mod command;
pub mod text;

verus! {

/// What a block is handed when it is asked to render.
#[derive(Debug)]
pub enum RenderInput {
    /// Nothing yet: the first call of a rendering.
    Start,
    /// The standard output of the command that the block asked to be run.
    Output(Vec<u8>),
    /// The command that the block asked to be run could not be run.
    Failed,
    /// The glyphs of the text that the block asked to be laid out.
    Glyphs(GlyphRun),
}

/// What a block answers when it is asked to render: its bitmap, or the work
/// that has to be done for it first.
#[derive(Debug)]
pub enum RenderStep {
    /// The block's bitmap.
    Done(Image),
    /// Run this shell command and come back with its output.
    Run(String),
    /// Lay this text out in the font at this height and come back with the
    /// glyphs.
    Rasterize { text: String, font: String, font_height: u32 },
}

/// What a pointer event did to a block.
#[derive(Debug)]
pub struct MouseOutcome {
    /// The block looks different now and the bar has to be drawn again.
    pub redraw: bool,
    /// A shell command to start without waiting for it.
    pub spawn: Option<String>,
}

/// Where on the bar a group of blocks is placed.
#[derive(Copy, Clone, Debug, PartialEq, Eq, Structural)]
pub enum Alignment {
    LEFT,
    CENTER,
    RIGHT,
}

/// Names one block of the bar: its group, and its place in the group counted
/// from the left, starting at 0.
#[derive(Copy, Clone, Debug, PartialEq, Eq, Structural)]
pub struct BlockId {
    pub alignment: Alignment,
    pub index: usize,
}

/// One unit of the bar: a bitmap that is rendered on its own and placed in one
/// of the bar's three groups.
#[derive(Debug)]
pub enum Block {
    Text(TextBlock),
    Command(CommandBlock),
}

impl Block {
    /// The bitmap of the last rendering, while it is still good.
    pub open spec fn cache(self) -> Option<Image> {
        match self {
            Block::Text(block) => block.cache,
            Block::Command(block) => block.cache,
        }
    }

    /// The pointer was over the block when it was last told.
    pub open spec fn hover(self) -> bool {
        match self {
            Block::Text(block) => block.hover,
            Block::Command(block) => block.hover,
        }
    }

    /// The command that a click on the block starts.
    pub open spec fn click_command(self) -> Option<String> {
        match self {
            Block::Text(block) => block.click_command,
            Block::Command(block) => block.click_command,
        }
    }

    /// The block after it has been told whether the pointer is over it.
    pub open spec fn after_mouse(self, inside: bool) -> Block {
        match self {
            Block::Text(block) => Block::Text(block.after_mouse(inside)),
            Block::Command(block) => Block::Command(block.after_mouse(inside)),
        }
    }

    /// The period in milliseconds at which the block is to be refreshed, for a
    /// block that refreshes itself.
    pub open spec fn period(self) -> Option<u32> {
        match self {
            Block::Text(_) => None,
            Block::Command(block) => if block.interval > 0 {
                Some(block.interval)
            } else {
                None
            },
        }
    }

    /// The foreground colour that the block is drawn in right now: the hover
    /// colour while the pointer is over it.
    pub open spec fn shown_fg(self) -> Rgba {
        match self {
            Block::Text(block) => block.shown_fg(),
            Block::Command(block) => block.shown_fg(),
        }
    }

    /// The background that the block is drawn on right now: the hover
    /// background while the pointer is over it.
    pub open spec fn shown_bg(self) -> Image {
        match self {
            Block::Text(block) => block.shown_bg(),
            Block::Command(block) => block.shown_bg(),
        }
    }

    /// The block with its cache emptied.
    pub open spec fn invalidated(self) -> Block {
        match self {
            Block::Text(block) => Block::Text(TextBlock { cache: None, ..block }),
            Block::Command(block) => Block::Command(CommandBlock { cache: None, ..block }),
        }
    }

    /// What the block shows on the bar: the bitmap in its cache. A block
    /// without one shows nothing and takes no room.
    pub open spec fn shown(self) -> Raster {
        match self.cache() {
            Some(img) => img@,
            None => Raster::filled(0, 0, Rgba::transparent()),
        }
    }

    /// What one step of rendering does, from the block `before` and the input
    /// to the block `after` and the answer.
    pub open spec fn rendered(before: Block, input: RenderInput, after: Block, step: RenderStep) -> bool {
        match (before, after) {
            (Block::Text(b), Block::Text(a)) => TextBlock::rendered(b, input, a, step),
            (Block::Command(b), Block::Command(a)) => CommandBlock::rendered(b, input, a, step),
            _ => false,
        }
    }

    /// The period in milliseconds at which the block's cache is to be emptied,
    /// for a block that refreshes itself.
    pub fn start_interval(&self) -> (period: Option<u32>)
        ensures
            period == self.period(),
    {
        match self {
            Block::Text(block) => block.start_interval(),
            Block::Command(block) => block.start_interval(),
        }
    }

    /// Tells the block where the pointer is: `Some` when it is over the block,
    /// `None` when it is not.
    pub fn mouse_event(&mut self, mouse_event: Option<MouseEvent>) -> (out: MouseOutcome)
        ensures
            *final(self) == old(self).after_mouse(mouse_event is Some),
            out.redraw == (old(self).hover() != (mouse_event is Some)),
            out.spawn == click_of(old(self).click_command(), mouse_event),
    {
        match self {
            Block::Text(block) => block.mouse_event(mouse_event),
            Block::Command(block) => block.mouse_event(mouse_event),
        }
    }

    /// One step of rendering the block.
    pub fn render(&mut self, input: RenderInput) -> (step: RenderStep)
        ensures
            Block::rendered(*old(self), input, *final(self), step),
    {
        match self {
            Block::Text(block) => block.render(input),
            Block::Command(block) => block.render(input),
        }
    }

    /// Empties the cache, so that the next rendering starts afresh.
    pub fn invalidate(&mut self)
        ensures
            *final(self) == old(self).invalidated(),
    {
        match self {
            Block::Text(block) => {
                block.cache = None;
            },
            Block::Command(block) => {
                block.cache = None;
            },
        }
    }

    /// The bitmap in the cache, if there is one.
    pub fn cached(&self) -> (img: Option<&Image>)
        ensures
            match img {
                Some(img) => self.cache() == Some(*img),
                None => self.cache() is None,
            },
    {
        match self {
            Block::Text(block) => block.cache.as_ref(),
            Block::Command(block) => block.cache.as_ref(),
        }
    }

    /// The width of what the block shows on the bar.
    pub fn shown_width(&self) -> (width: u32)
        ensures
            width == self.shown().width,
    {
        match self.cached() {
            Some(img) => img.width(),
            None => 0,
        }
    }
}

/// A rendering that leaves a bitmap in the cache has answered with that
/// bitmap, and a block whose cache holds a bitmap answers with it: rendering
/// again, with nothing in between that empties the cache, gives the same
/// bitmap and changes nothing.
pub proof fn lemma_render_twice(
    first: Block,
    input: RenderInput,
    second: Block,
    step: RenderStep,
    again: RenderInput,
    third: Block,
    repeat: RenderStep,
)
    requires
        Block::rendered(first, input, second, step),
        Block::rendered(second, again, third, repeat),
        step is Done,
        second.cache() is Some,
    ensures
        repeat matches RenderStep::Done(img) && img@ == step->Done_0@,
        third == second,
{
}

/// A command that could not be run leaves the block as it was: the block
/// shows nothing for now, and the next rendering starts with the command
/// again.
pub proof fn lemma_failure_is_not_kept(
    before: Block,
    after: Block,
    step: RenderStep,
    retried: Block,
    retry: RenderStep,
)
    requires
        before.cache() is None,
        Block::rendered(before, RenderInput::Failed, after, step),
        Block::rendered(after, RenderInput::Start, retried, retry),
    ensures
        after == before,
        !(retry is Done),
{
}

/// A block that is handed glyphs answers with a bitmap, and has that
/// bitmap in its cache from then on: a rendering comes to an end.
pub proof fn lemma_glyphs_finish_rendering(
    before: Block,
    run: GlyphRun,
    after: Block,
    step: RenderStep,
)
    requires
        Block::rendered(before, RenderInput::Glyphs(run), after, step),
    ensures
        step matches RenderStep::Done(img) && after.cache() matches Some(kept) && kept@ == img@,
{
}

/// How a block looks and what it does while the pointer is over it.
#[derive(Debug)]
pub struct Hover {
    pub bg: Image,
    pub fg: Rgba,
    pub command: Option<String>,
}

/// What the `mouse` table of a block's declaration holds under the names
/// `hover_bg`, `hover_fg` and `command`.
#[derive(Debug)]
pub struct HoverEntries {
    pub bg: Result<Image, ConfigError>,
    pub fg: Result<Rgba, ConfigError>,
    pub command: Result<String, ConfigError>,
}

/// `HoverEntries` with images and texts as what they hold.
pub struct MouseTable {
    pub bg: Result<Raster, ConfigFault>,
    pub fg: Result<Rgba, ConfigFault>,
    pub command: Result<Seq<char>, ConfigFault>,
}

impl View for HoverEntries {
    type V = MouseTable;

    open spec fn view(&self) -> MouseTable {
        MouseTable {
            bg: image_result(self.bg),
            fg: plain_result(self.fg),
            command: text_result(self.command),
        }
    }
}

/// What the `mouse` table of a declaration holds, where the declaration has
/// one.
pub open spec fn mouse_table(value: toml::Value, home: Seq<char>, resources: Resources) -> Option<
    MouseTable,
> {
    match entry_of(value, "mouse"@) {
        Some(table) => Some(
            MouseTable {
                bg: image_entry(table, "hover_bg"@, home, resources),
                fg: rgba_entry(table, "hover_fg"@),
                command: string_entry(table, "command"@),
            },
        ),
        None => None,
    }
}

/// The file that has to be loaded before the hover background can be had, if
/// there is such a file.
pub open spec fn chosen_hover_fault(table: Option<MouseTable>) -> Option<ConfigFault> {
    match table {
        Some(table) => if asks(table.bg) {
            Some(table.bg->Err_0)
        } else {
            None
        },
        None => None,
    }
}

/// The background of a block under the pointer: that of the `mouse` table where
/// it can be read, else `bg`.
pub open spec fn chosen_hover_bg(bg: Raster, table: Option<MouseTable>) -> Raster {
    match table {
        Some(table) => or_fallback(table.bg, bg),
        None => bg,
    }
}

/// The foreground of a block under the pointer: that of the `mouse` table where
/// it can be read, else `fg`.
pub open spec fn chosen_hover_fg(fg: Rgba, table: Option<MouseTable>) -> Rgba {
    match table {
        Some(table) => or_fallback(table.fg, fg),
        None => fg,
    }
}

/// The command that a click starts: that of the `mouse` table, where it can be
/// read.
pub open spec fn chosen_hover_command(table: Option<MouseTable>) -> Option<Seq<char>> {
    match table {
        Some(table) => match table.command {
            Ok(command) => Some(command),
            Err(_) => None,
        },
        None => None,
    }
}

/// The file that has to be loaded before the `mouse` table of a block's
/// declaration can be read, if there is such a file.
pub open spec fn hover_fault(value: toml::Value, home: Seq<char>, resources: Resources) -> Option<
    ConfigFault,
> {
    chosen_hover_fault(mouse_table(value, home, resources))
}

/// The background of a block under the pointer: the `hover_bg` of the
/// declaration's `mouse` table where that can be read, else `bg`.
pub open spec fn hover_bg(bg: Raster, value: toml::Value, home: Seq<char>, resources: Resources) -> Raster {
    chosen_hover_bg(bg, mouse_table(value, home, resources))
}

/// The foreground of a block under the pointer: the `hover_fg` of the
/// declaration's `mouse` table where that can be read, else `fg`.
pub open spec fn hover_fg(fg: Rgba, value: toml::Value, home: Seq<char>, resources: Resources) -> Rgba {
    chosen_hover_fg(fg, mouse_table(value, home, resources))
}

/// The command that a click starts: the `command` of the declaration's `mouse`
/// table, where there is one.
pub open spec fn hover_command(value: toml::Value, home: Seq<char>, resources: Resources) -> Option<
    Seq<char>,
> {
    chosen_hover_command(mouse_table(value, home, resources))
}

/// `hover` is what a `mouse` table and the fallback colours make a block under
/// the pointer look like and do.
pub open spec fn is_hover(bg: Raster, fg: Rgba, table: Option<MouseTable>, hover: Hover) -> bool {
    &&& hover.bg@ == chosen_hover_bg(bg, table)
    &&& hover.fg == chosen_hover_fg(fg, table)
    &&& text_option(hover.command) == chosen_hover_command(table)
}

/// A text that may be missing, as a sequence of characters.
pub open spec fn text_option(text: Option<String>) -> Option<Seq<char>> {
    match text {
        Some(text) => Some(text@),
        None => None,
    }
}

/// Reads what the `mouse` table of a block's declaration holds.
pub fn read_hover(value: &toml::Value, home: &str, resources: &Resources) -> (entries: Option<
    HoverEntries,
>)
    ensures
        match entries {
            Some(entries) => mouse_table(*value, home@, *resources) == Some(entries@),
            None => mouse_table(*value, home@, *resources) is None,
        },
{
    match toml_get(value, "mouse") {
        None => None,
        Some(table) => Some(
            HoverEntries {
                bg: toml_value_to_image(table, "hover_bg", home, resources),
                fg: toml_value_to_rgba(table, "hover_fg"),
                command: toml_value_to_string(table, "command"),
            },
        ),
    }
}

/// Decides how a block looks and what it does under the pointer, from what its
/// `mouse` table holds and the colours it has otherwise.
pub fn choose_hover(bg: &Image, fg: Rgba, entries: Option<HoverEntries>) -> (res: Result<
    Hover,
    ConfigError,
>)
    ensures
        match res {
            Ok(hover) => {
                &&& chosen_hover_fault(view_of(entries)) is None
                &&& is_hover(bg@, fg, view_of(entries), hover)
            },
            Err(e) => chosen_hover_fault(view_of(entries)) == Some(e@),
        },
{
    match entries {
        None => Ok(Hover { bg: bg.clone(), fg, command: None }),
        Some(entries) => {
            let hover_bg = match entries.bg {
                Ok(image) => image,
                Err(ConfigError::WantedImage(path)) => {
                    return Err(ConfigError::WantedImage(path));
                },
                Err(ConfigError::WantedFont(path)) => {
                    return Err(ConfigError::WantedFont(path));
                },
                Err(_) => bg.clone(),
            };
            Ok(
                Hover {
                    bg: hover_bg,
                    fg: match entries.fg {
                        Ok(color) => color,
                        Err(_) => fg,
                    },
                    command: match entries.command {
                        Ok(command) => Some(command),
                        Err(_) => None,
                    },
                },
            )
        },
    }
}

/// What a `mouse` table holds, with images and texts as what they hold.
pub open spec fn view_of(entries: Option<HoverEntries>) -> Option<MouseTable> {
    match entries {
        Some(entries) => Some(entries@),
        None => None,
    }
}

/// Reads the `mouse` table of a block's declaration.
pub fn hover_from_toml(config: &Config, value: &toml::Value, home: &str, resources: &Resources) -> (res:
    Result<Hover, ConfigError>)
    ensures
        match res {
            Ok(hover) => {
                &&& hover_fault(*value, home@, *resources) is None
                &&& is_hover(config.bg@, config.fg, mouse_table(*value, home@, *resources), hover)
            },
            Err(e) => hover_fault(*value, home@, *resources) == Some(e@),
        },
{
    choose_hover(&config.bg, config.fg, read_hover(value, home, resources))
}

/// The kinds of block that a declaration can ask for.
#[derive(Copy, Clone, Debug, PartialEq, Eq, Structural)]
pub enum Module {
    Text,
    Command,
}

/// The module of a name: `text` and `command` are the two there are.
pub open spec fn module_of(name: Seq<char>) -> Option<Module> {
    if name == "text"@ {
        Some(Module::Text)
    } else if name == "command"@ {
        Some(Module::Command)
    } else {
        None
    }
}

/// Looks a module up by its name.
pub fn find_module(name: &str) -> (module: Option<Module>)
    ensures
        module == module_of(name@),
{
    let name = name.to_owned();
    if name == "text".to_owned() {
        Some(Module::Text)
    } else if name == "command".to_owned() {
        Some(Module::Command)
    } else {
        None
    }
}

/// Why a declaration gives no block of the module, or `None` where it gives
/// one.
pub open spec fn block_fault(
    module: Module,
    config: Settings,
    value: toml::Value,
    home: Seq<char>,
    resources: Resources,
) -> Option<ConfigFault> {
    match module {
        Module::Text => TextBlock::fault(config, value, home, resources),
        Module::Command => CommandBlock::fault(config, value, home, resources),
    }
}

/// `block` is the block of the module that the declaration gives.
pub open spec fn block_created(
    module: Module,
    config: Settings,
    value: toml::Value,
    home: Seq<char>,
    resources: Resources,
    block: Block,
) -> bool {
    match (module, block) {
        (Module::Text, Block::Text(block)) => TextBlock::created(
            config,
            value,
            home,
            resources,
            block,
        ),
        (Module::Command, Block::Command(block)) => CommandBlock::created(
            config,
            value,
            home,
            resources,
            block,
        ),
        _ => false,
    }
}

/// Makes the block of a module from the settings it starts from and its
/// declaration.
pub fn create_block(
    module: Module,
    config: Config,
    value: &toml::Value,
    home: &str,
    resources: &Resources,
) -> (res: Result<Block, ConfigError>)
    ensures
        match res {
            Ok(block) => {
                &&& block_fault(module, config.settings(), *value, home@, *resources) is None
                &&& block_created(module, config.settings(), *value, home@, *resources, block)
            },
            Err(e) => block_fault(module, config.settings(), *value, home@, *resources) == Some(e@),
        },
{
    match module {
        Module::Text => TextBlock::create(config, value, home, resources),
        Module::Command => CommandBlock::create(config, value, home, resources),
    }
}

/// Entering a block and leaving it again empties the cache once at each of the
/// two changes, and at no event in between or after, and leaves the block in
/// the colours it had before.
pub proof fn lemma_hover_toggle(block: Block)
    requires
        !block.hover(),
    ensures
        ({
            let entered = block.after_mouse(true);
            let stayed = entered.after_mouse(true);
            let left = stayed.after_mouse(false);
            &&& entered.hover() && entered.cache() is None
            &&& stayed == entered
            &&& !left.hover() && left.cache() is None
            &&& left == block.invalidated()
            &&& left.shown_fg() == block.shown_fg()
            &&& left.shown_bg() == block.shown_bg()
            &&& left.after_mouse(false) == left
        }),
{
}

/// A block redraws on a pointer event exactly when the event changes whether
/// the pointer is over it, and it is then that its cache is emptied; otherwise
/// the block stays as it is.
pub proof fn lemma_hover_change(block: Block, inside: bool)
    ensures
        block.hover() != inside ==> block.after_mouse(inside).cache() is None
            && block.after_mouse(inside).hover() == inside,
        block.hover() == inside ==> block.after_mouse(inside) == block,
{
}

} // verus!
