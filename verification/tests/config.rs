use leechbar::bitmap::{Image, Rgba};
use leechbar::modules::command::CommandBlock;
use leechbar::modules::text::TextBlock;
use leechbar::modules::{
    choose_hover, create_block, find_module, hover_from_toml, read_hover, Block, Hover,
    HoverEntries, Module,
};
use leechbar::parse_input::{
    block_from_toml, block_named, choose_settings, font_from_text, image_from_text,
    is_white_space, low_bits,
    parse_hex_digit, parse_hex_pair, parse_settings, read_config, read_entries, split_at_spaces,
    string_to_rgba, toml_value_to_blocks, toml_value_to_bool, toml_value_to_font,
    toml_value_to_image, toml_value_to_integer, toml_value_to_rgba, toml_value_to_string,
    BlockEntries, Config, ConfigError, Resources,
};

const HOME: &str = "/home/me";

fn doc(text: &str) -> toml::Value {
    toml::Value::Table(text.parse::<toml::Table>().unwrap())
}

fn defaults() -> Config {
    Config {
        bg: Image::filled(1, 1, Rgba::new(1, 2, 3, 255)),
        fg: Rgba::new(4, 5, 6, 255),
        font: Some("/fonts/default.ttf".to_string()),
        font_height: Some(12),
        resize: true,
        width: 7,
        spacing: 8,
        interval: 9,
        bar_height: 30,
        top: false,
        left_blocks: Vec::new(),
        center_blocks: Vec::new(),
        right_blocks: Vec::new(),
    }
}

fn with_font(path: &str) -> Resources {
    let mut resources = Resources::new();
    resources.fonts.push((path.to_string(), true));
    resources
}

fn text_of(block: &Block) -> &TextBlock {
    match block {
        Block::Text(block) => block,
        other => panic!("no text block: {:?}", other),
    }
}

fn command_of(block: &Block) -> &CommandBlock {
    match block {
        Block::Command(block) => block,
        other => panic!("no command block: {:?}", other),
    }
}

fn message<T: std::fmt::Debug>(res: Result<T, ConfigError>) -> String {
    res.unwrap_err().message()
}

#[test]
fn bool_is_read() {
    let value = doc("top = false\nresize = true\nwidth = 3\n");
    assert_eq!(toml_value_to_bool(&value, "top").unwrap(), false);
    assert_eq!(toml_value_to_bool(&value, "resize").unwrap(), true);
    assert_eq!(message(toml_value_to_bool(&value, "bottom")), "Could not find toml value bottom.");
    assert_eq!(message(toml_value_to_bool(&value, "width")), "Toml value width is not a boolean.");
}

#[test]
fn integer_is_read() {
    let value = doc("width = 3\nzero = 0\nmax = 4294967295\nname = \"x\"\n");
    assert_eq!(toml_value_to_integer(&value, "width").unwrap(), 3);
    assert_eq!(toml_value_to_integer(&value, "zero").unwrap(), 0);
    assert_eq!(toml_value_to_integer(&value, "max").unwrap(), u32::MAX);
    assert_eq!(message(toml_value_to_integer(&value, "height")), "Could not find toml value height.");
    assert_eq!(message(toml_value_to_integer(&value, "name")), "Toml value name is not an integer.");
}

#[test]
fn integer_that_does_not_fit_keeps_its_low_bits() {
    let value = doc("a = -1\nb = 4294967296\nc = 4294967301\nd = -4294967295\ne = 9223372036854775807\n");
    assert_eq!(toml_value_to_integer(&value, "a").unwrap(), u32::MAX);
    assert_eq!(toml_value_to_integer(&value, "b").unwrap(), 0);
    assert_eq!(toml_value_to_integer(&value, "c").unwrap(), 5);
    assert_eq!(toml_value_to_integer(&value, "d").unwrap(), 1);
    assert_eq!(toml_value_to_integer(&value, "e").unwrap(), u32::MAX);
}

#[test]
fn string_is_read() {
    let value = doc("text = \"hello world\"\nempty = \"\"\nwidth = 3\n");
    assert_eq!(toml_value_to_string(&value, "text").unwrap(), "hello world");
    assert_eq!(toml_value_to_string(&value, "empty").unwrap(), "");
    assert_eq!(message(toml_value_to_string(&value, "txt")), "Could not find toml value txt.");
    assert_eq!(message(toml_value_to_string(&value, "width")), "Toml value width is not a string.");
}

#[test]
fn value_that_is_no_table_holds_nothing() {
    let value = toml::Value::Integer(3);
    assert!(matches!(toml_value_to_integer(&value, "a"), Err(ConfigError::Missing(_))));
    let value = toml::Value::String("a".to_string());
    assert!(matches!(toml_value_to_string(&value, "a"), Err(ConfigError::Missing(_))));
}

#[test]
fn colour_with_three_pairs_is_opaque() {
    assert_eq!(string_to_rgba("#ff00ff").unwrap(), Rgba::new(255, 0, 255, 255));
    assert_eq!(string_to_rgba("#000000").unwrap(), Rgba::new(0, 0, 0, 255));
    assert_eq!(string_to_rgba("#123456").unwrap(), Rgba::new(0x12, 0x34, 0x56, 255));
}

#[test]
fn colour_with_four_pairs_has_its_alpha() {
    assert_eq!(string_to_rgba("#ff00ff80").unwrap(), Rgba::new(255, 0, 255, 128));
    assert_eq!(string_to_rgba("#01020300").unwrap(), Rgba::new(1, 2, 3, 0));
}

#[test]
fn colour_digits_in_either_case() {
    assert_eq!(string_to_rgba("#AbCdEf").unwrap(), Rgba::new(0xab, 0xcd, 0xef, 255));
    assert_eq!(string_to_rgba("#ABCDEF9a").unwrap(), Rgba::new(0xab, 0xcd, 0xef, 0x9a));
}

#[test]
fn colour_ignores_its_first_character_and_what_follows_the_alpha() {
    assert_eq!(string_to_rgba("xff00ff").unwrap(), Rgba::new(255, 0, 255, 255));
    assert_eq!(string_to_rgba("#ff00ff80zz").unwrap(), Rgba::new(255, 0, 255, 128));
}

#[test]
fn text_that_is_no_colour() {
    for text in ["", "#", "#ff00f", "#ff00ff8", "#gg00ff", "#ff00fg", "#ff00ffzz", "#ff 0ff", "#-100ff"] {
        match string_to_rgba(text) {
            Err(ConfigError::InvalidColor(bad)) => assert_eq!(bad, text),
            other => panic!("{:?} read as {:?}", text, other),
        }
    }
    assert_eq!(message(string_to_rgba("#12")), "Not a colour: #12.");
}

#[test]
fn hex_digits() {
    assert_eq!(parse_hex_digit('0'), Some(0));
    assert_eq!(parse_hex_digit('9'), Some(9));
    assert_eq!(parse_hex_digit('a'), Some(10));
    assert_eq!(parse_hex_digit('f'), Some(15));
    assert_eq!(parse_hex_digit('A'), Some(10));
    assert_eq!(parse_hex_digit('F'), Some(15));
    assert_eq!(parse_hex_digit('g'), None);
    assert_eq!(parse_hex_digit('G'), None);
    assert_eq!(parse_hex_digit('/'), None);
    assert_eq!(parse_hex_digit(':'), None);
    assert_eq!(parse_hex_digit('@'), None);
    assert_eq!(parse_hex_digit('`'), None);
    assert_eq!(parse_hex_digit('٣'), None);
}

#[test]
fn hex_pairs_are_read_as_the_standard_library_reads_them() {
    let mut chars: Vec<char> = (0u8..128).map(|byte| byte as char).collect();
    chars.extend(['é', '٣', '０', 'Ａ', '\u{ff10}']);
    for &high in chars.iter() {
        for &low in chars.iter() {
            let text: String = [high, low].iter().collect();
            assert_eq!(parse_hex_pair(high, low), u8::from_str_radix(&text, 16).ok(), "{:?}", text);
        }
    }
    assert_eq!(parse_hex_pair('f', 'f'), Some(255));
    assert_eq!(parse_hex_pair('1', '0'), Some(16));
    assert_eq!(parse_hex_pair('+', 'f'), Some(15));
}

#[test]
fn colour_under_a_name() {
    let value = doc("fg = \"#102030\"\nbad = \"red\"\nn = 1\n");
    assert_eq!(toml_value_to_rgba(&value, "fg").unwrap(), Rgba::new(16, 32, 48, 255));
    assert!(matches!(toml_value_to_rgba(&value, "bad"), Err(ConfigError::InvalidColor(_))));
    assert!(matches!(toml_value_to_rgba(&value, "n"), Err(ConfigError::NotString(_))));
    assert!(matches!(toml_value_to_rgba(&value, "bg"), Err(ConfigError::Missing(_))));
}

#[test]
fn image_of_a_colour_is_one_pixel() {
    let value = doc("bg = \"#10203040\"\nbad = \"#12\"\n");
    let img = toml_value_to_image(&value, "bg", HOME, &Resources::new()).unwrap();
    assert_eq!(img.width(), 1);
    assert_eq!(img.height(), 1);
    assert_eq!(img.get_pixel(0, 0), Rgba::new(16, 32, 48, 64));
    assert!(matches!(
        toml_value_to_image(&value, "bad", HOME, &Resources::new()),
        Err(ConfigError::InvalidColor(_))
    ));
    assert!(matches!(
        toml_value_to_image(&value, "none", HOME, &Resources::new()),
        Err(ConfigError::Missing(_))
    ));
}

#[test]
fn image_of_a_file_is_asked_for_and_then_found() {
    let value = doc("bg = \"~/bar.png\"\nother = \"$HOME/x/$HOME.png\"\nplain = \"/abs.png\"\n");
    let mut resources = Resources::new();
    match toml_value_to_image(&value, "bg", HOME, &resources) {
        Err(ConfigError::WantedImage(path)) => assert_eq!(path, "/home/me/bar.png"),
        other => panic!("{:?}", other),
    }
    match toml_value_to_image(&value, "other", HOME, &resources) {
        Err(ConfigError::WantedImage(path)) => assert_eq!(path, "/home/me/x//home/me.png"),
        other => panic!("{:?}", other),
    }
    match toml_value_to_image(&value, "plain", HOME, &resources) {
        Err(ConfigError::WantedImage(path)) => assert_eq!(path, "/abs.png"),
        other => panic!("{:?}", other),
    }
    resources.images.push(("/abs.png".to_string(), None));
    resources.images.push(("/home/me/bar.png".to_string(), Some(Image::filled(3, 2, Rgba::new(9, 9, 9, 9)))));
    resources.images.push(("/home/me/bar.png".to_string(), None));
    let img = toml_value_to_image(&value, "bg", HOME, &resources).unwrap();
    assert_eq!(img.width(), 3);
    assert_eq!(img.height(), 2);
    assert_eq!(img.get_pixel(2, 1), Rgba::new(9, 9, 9, 9));
    match toml_value_to_image(&value, "plain", HOME, &resources) {
        Err(ConfigError::Unavailable(path)) => assert_eq!(path, "/abs.png"),
        other => panic!("{:?}", other),
    }
    assert_eq!(
        message(toml_value_to_image(&value, "plain", HOME, &resources)),
        "Could not load /abs.png."
    );
}

#[test]
fn font_of_a_file_is_asked_for_and_then_found() {
    let value = doc("font = \"~/fonts/a.ttf\"\nodd = \"$/b.ttf\"\nn = 3\n");
    let mut resources = Resources::new();
    match toml_value_to_font(&value, "font", HOME, &resources) {
        Err(ConfigError::WantedFont(path)) => assert_eq!(path, "/home/me/fonts/a.ttf"),
        other => panic!("{:?}", other),
    }
    match toml_value_to_font(&value, "odd", HOME, &resources) {
        Err(ConfigError::WantedFont(path)) => assert_eq!(path, "/home/me/b.ttf"),
        other => panic!("{:?}", other),
    }
    resources.fonts.push(("/home/me/fonts/a.ttf".to_string(), true));
    resources.fonts.push(("/home/me/b.ttf".to_string(), false));
    assert_eq!(toml_value_to_font(&value, "font", HOME, &resources).unwrap(), "/home/me/fonts/a.ttf");
    assert!(matches!(toml_value_to_font(&value, "odd", HOME, &resources), Err(ConfigError::Unavailable(_))));
    assert!(matches!(toml_value_to_font(&value, "n", HOME, &resources), Err(ConfigError::NotString(_))));
    assert!(matches!(toml_value_to_font(&value, "x", HOME, &resources), Err(ConfigError::Missing(_))));
}

#[test]
fn resources_keep_the_first_try() {
    let mut resources = Resources::new();
    assert!(resources.image(&"a".to_string()).is_none());
    assert_eq!(resources.font(&"a".to_string()), None);
    resources.images.push(("a".to_string(), None));
    resources.images.push(("a".to_string(), Some(Image::new(1, 1))));
    resources.images.push(("b".to_string(), Some(Image::new(2, 1))));
    resources.fonts.push(("a".to_string(), false));
    resources.fonts.push(("a".to_string(), true));
    resources.fonts.push(("b".to_string(), true));
    assert!(resources.image(&"a".to_string()).unwrap().is_none());
    assert_eq!(resources.image(&"b".to_string()).unwrap().as_ref().unwrap().width(), 2);
    assert!(resources.image(&"c".to_string()).is_none());
    assert_eq!(resources.font(&"a".to_string()), Some(false));
    assert_eq!(resources.font(&"b".to_string()), Some(true));
    assert_eq!(resources.font(&"c".to_string()), None);
}

#[test]
fn block_settings_come_from_the_table() {
    let value = doc(
        "bg = \"#0a0b0c\"\nfg = \"#0d0e0f\"\nresize = false\nwidth = 70\nspacing = 80\ninterval = 90\nfont = \"/f.ttf\"\nfont_height = 14\nbar_height = 99\ntop = true\n",
    );
    let config = block_from_toml(&value, &defaults(), HOME, &with_font("/f.ttf")).unwrap();
    assert_eq!(config.bg.get_pixel(0, 0), Rgba::new(10, 11, 12, 255));
    assert_eq!(config.fg, Rgba::new(13, 14, 15, 255));
    assert_eq!(config.resize, false);
    assert_eq!(config.width, 70);
    assert_eq!(config.spacing, 80);
    assert_eq!(config.interval, 90);
    assert_eq!(config.font, Some("/f.ttf".to_string()));
    assert_eq!(config.font_height, Some(14));
    assert_eq!(config.bar_height, 30);
    assert_eq!(config.top, false);
    assert!(config.left_blocks.is_empty() && config.center_blocks.is_empty() && config.right_blocks.is_empty());
}

#[test]
fn block_settings_fall_back() {
    let value = doc("bg = \"nonsense\"\nfg = 3\nwidth = \"wide\"\nfont = \"/gone.ttf\"\n");
    let mut resources = Resources::new();
    resources.images.push(("nonsense".to_string(), None));
    resources.fonts.push(("/gone.ttf".to_string(), false));
    let config = block_from_toml(&value, &defaults(), HOME, &resources).unwrap();
    assert_eq!(config.bg.get_pixel(0, 0), Rgba::new(1, 2, 3, 255));
    assert_eq!(config.fg, Rgba::new(4, 5, 6, 255));
    assert_eq!(config.resize, true);
    assert_eq!(config.width, 7);
    assert_eq!(config.spacing, 8);
    assert_eq!(config.interval, 9);
    assert_eq!(config.font, Some("/fonts/default.ttf".to_string()));
    assert_eq!(config.font_height, Some(12));
    let empty = block_from_toml(&doc(""), &defaults(), HOME, &Resources::new()).unwrap();
    assert_eq!(empty.width, 7);
    assert_eq!(empty.font_height, Some(12));
}

#[test]
fn block_settings_ask_for_files_first() {
    let value = doc("bg = \"~/bg.png\"\nfont = \"~/f.ttf\"\n");
    let mut resources = Resources::new();
    let mut bare = defaults();
    bare.font = None;
    bare.font_height = None;
    match block_from_toml(&value, &bare, HOME, &resources) {
        Err(ConfigError::WantedImage(path)) => assert_eq!(path, "/home/me/bg.png"),
        other => panic!("{:?}", other),
    }
    resources.images.push(("/home/me/bg.png".to_string(), None));
    match block_from_toml(&value, &bare, HOME, &resources) {
        Err(ConfigError::WantedFont(path)) => assert_eq!(path, "/home/me/f.ttf"),
        other => panic!("{:?}", other),
    }
    resources.fonts.push(("/home/me/f.ttf".to_string(), false));
    assert!(matches!(block_from_toml(&value, &bare, HOME, &resources), Err(ConfigError::FontRequired)));
    assert_eq!(message(block_from_toml(&value, &bare, HOME, &resources)), "Font required in [general].");
    bare.font = Some("x.ttf".to_string());
    assert!(matches!(block_from_toml(&value, &bare, HOME, &resources), Err(ConfigError::FontHeightRequired)));
    bare.font_height = Some(3);
    let config = block_from_toml(&value, &bare, HOME, &resources).unwrap();
    assert_eq!(config.font, Some("x.ttf".to_string()));
    assert_eq!(config.bg.get_pixel(0, 0), Rgba::new(1, 2, 3, 255));
}

#[test]
fn copy_of_the_settings_has_no_blocks() {
    let mut config = defaults();
    config.left_blocks.push(TextBlock::create(defaults(), &doc("text = \"a\""), HOME, &Resources::new()).unwrap());
    let copy = config.clone();
    assert!(copy.left_blocks.is_empty());
    assert_eq!(config.left_blocks.len(), 1);
    assert_eq!(copy.bg.get_pixel(0, 0), Rgba::new(1, 2, 3, 255));
    assert_eq!(copy.fg, config.fg);
    assert_eq!(copy.font, config.font);
    assert_eq!(copy.font_height, Some(12));
    assert_eq!((copy.resize, copy.width, copy.spacing, copy.interval), (true, 7, 8, 9));
    assert_eq!((copy.bar_height, copy.top), (30, false));
}

#[test]
fn text_block_is_made_from_its_declaration() {
    let value = doc("module = \"text\"\ntext = \"hello\"\n");
    let made = TextBlock::create(defaults(), &value, HOME, &Resources::new()).unwrap();
    let block = text_of(&made);
    assert_eq!(block.text, "hello");
    assert_eq!(block.bar_height, 30);
    assert_eq!(block.font_height, 12);
    assert_eq!(block.font, "/fonts/default.ttf");
    assert_eq!(block.bg_col.get_pixel(0, 0), Rgba::new(1, 2, 3, 255));
    assert_eq!(block.fg_col, Rgba::new(4, 5, 6, 255));
    assert_eq!(block.width, 7);
    assert_eq!(block.spacing, 8);
    assert!(block.cache.is_none());
    assert_eq!(block.hover_bg_col.get_pixel(0, 0), Rgba::new(1, 2, 3, 255));
    assert_eq!(block.hover_fg_col, Rgba::new(4, 5, 6, 255));
    assert_eq!(block.click_command, None);
    assert!(!block.hover);
}

#[test]
fn font_is_no_higher_than_the_bar() {
    let mut config = defaults();
    config.font_height = Some(50);
    let made = TextBlock::create(config, &doc("text = \"a\""), HOME, &Resources::new()).unwrap();
    assert_eq!(text_of(&made).font_height, 30);
    let mut config = defaults();
    config.font_height = Some(30);
    let made = CommandBlock::create(config, &doc("command = \"a\""), HOME, &Resources::new()).unwrap();
    assert_eq!(command_of(&made).font_height, 30);
}

#[test]
fn mouse_table_gives_hover_colours_and_click_command() {
    let value = doc("text = \"a\"\n[mouse]\nhover_bg = \"#111111\"\nhover_fg = \"#222222\"\ncommand = \"firefox\"\n");
    let made = TextBlock::create(defaults(), &value, HOME, &Resources::new()).unwrap();
    let block = text_of(&made);
    assert_eq!(block.hover_bg_col.get_pixel(0, 0), Rgba::new(17, 17, 17, 255));
    assert_eq!(block.hover_fg_col, Rgba::new(34, 34, 34, 255));
    assert_eq!(block.click_command, Some("firefox".to_string()));
    assert_eq!(block.bg_col.get_pixel(0, 0), Rgba::new(1, 2, 3, 255));
    assert_eq!(block.fg_col, Rgba::new(4, 5, 6, 255));
}

#[test]
fn mouse_table_with_nothing_readable_falls_back() {
    let value = doc("[mouse]\nhover_bg = 3\nhover_fg = \"blue\"\ncommand = true\n");
    let hover = hover_from_toml(&defaults(), &value, HOME, &Resources::new()).unwrap();
    assert_eq!(hover.bg.get_pixel(0, 0), Rgba::new(1, 2, 3, 255));
    assert_eq!(hover.fg, Rgba::new(4, 5, 6, 255));
    assert_eq!(hover.command, None);
    let value = doc("[mouse]\nhover_bg = \"~/h.png\"\n");
    match hover_from_toml(&defaults(), &value, HOME, &Resources::new()) {
        Err(ConfigError::WantedImage(path)) => assert_eq!(path, "/home/me/h.png"),
        other => panic!("{:?}", other),
    }
    let mut resources = Resources::new();
    resources.images.push(("/home/me/h.png".to_string(), Some(Image::filled(2, 2, Rgba::new(7, 7, 7, 7)))));
    let hover = hover_from_toml(&defaults(), &value, HOME, &resources).unwrap();
    assert_eq!(hover.bg.width(), 2);
}

#[test]
fn text_block_needs_its_text() {
    assert_eq!(
        message(TextBlock::create(defaults(), &doc("command = \"a\""), HOME, &Resources::new())),
        "Could not find toml value text."
    );
    assert_eq!(
        message(TextBlock::create(defaults(), &doc("text = 3"), HOME, &Resources::new())),
        "Toml value text is not a string."
    );
}

#[test]
fn blocks_need_font_and_font_height() {
    let mut config = defaults();
    config.font_height = None;
    config.font = None;
    assert!(matches!(
        TextBlock::create(config, &doc("text = \"a\""), HOME, &Resources::new()),
        Err(ConfigError::FontHeightRequired)
    ));
    let mut config = defaults();
    config.font = None;
    assert!(matches!(
        TextBlock::create(config, &doc("text = \"a\""), HOME, &Resources::new()),
        Err(ConfigError::FontRequired)
    ));
    let mut config = defaults();
    config.font = None;
    assert!(matches!(
        CommandBlock::create(config, &doc("command = \"a\""), HOME, &Resources::new()),
        Err(ConfigError::FontRequired)
    ));
    let mut config = defaults();
    config.font_height = None;
    assert_eq!(
        message(CommandBlock::create(config, &doc("command = \"a\""), HOME, &Resources::new())),
        "Font height required in [general]."
    );
}

#[test]
fn command_block_is_made_from_its_declaration() {
    let value = doc("command = \"date\"\n[mouse]\ncommand = \"cal\"\n");
    let made = CommandBlock::create(defaults(), &value, HOME, &Resources::new()).unwrap();
    let block = command_of(&made);
    assert_eq!(block.command, "date");
    assert_eq!(block.interval, 9);
    assert_eq!(block.bar_height, 30);
    assert_eq!(block.font_height, 12);
    assert_eq!(block.font, "/fonts/default.ttf");
    assert_eq!(block.width, 7);
    assert_eq!(block.spacing, 8);
    assert_eq!(block.fg_col, Rgba::new(4, 5, 6, 255));
    assert_eq!(block.click_command, Some("cal".to_string()));
    assert!(block.cache.is_none());
    assert!(!block.hover);
    assert_eq!(
        message(CommandBlock::create(defaults(), &doc("text = \"a\""), HOME, &Resources::new())),
        "Could not find toml value command."
    );
    assert!(matches!(
        CommandBlock::create(defaults(), &doc("command = 1"), HOME, &Resources::new()),
        Err(ConfigError::NotString(_))
    ));
}

#[test]
fn modules_are_found_by_name() {
    assert_eq!(find_module("text"), Some(Module::Text));
    assert_eq!(find_module("command"), Some(Module::Command));
    assert_eq!(find_module("Text"), None);
    assert_eq!(find_module("text "), None);
    assert_eq!(find_module(""), None);
    assert_eq!(find_module("clock"), None);
}

#[test]
fn module_makes_its_kind_of_block() {
    let value = doc("text = \"t\"\ncommand = \"c\"\n");
    let made = create_block(Module::Text, defaults(), &value, HOME, &Resources::new()).unwrap();
    assert_eq!(text_of(&made).text, "t");
    let made = create_block(Module::Command, defaults(), &value, HOME, &Resources::new()).unwrap();
    assert_eq!(command_of(&made).command, "c");
}

#[test]
fn text_is_cut_at_every_space() {
    assert_eq!(split_at_spaces("a b"), vec!["a", "b"]);
    assert_eq!(split_at_spaces(""), vec![""]);
    assert_eq!(split_at_spaces(" "), vec!["", ""]);
    assert_eq!(split_at_spaces("  a  b "), vec!["", "", "a", "", "b", ""]);
    assert_eq!(split_at_spaces("a\tb c\n"), vec!["a\tb", "c\n"]);
    assert_eq!(split_at_spaces("one"), vec!["one"]);
}

#[test]
fn splitting_agrees_with_the_standard_library() {
    for text in ["", " ", "a", "a b", " a", "a ", "  ", "a  b", "é ü  \u{a0}x ", "\t a\n "] {
        let want: Vec<String> = text.split(' ').map(|part| part.to_string()).collect();
        assert_eq!(split_at_spaces(text), want);
    }
}

const WHOLE: &str = r##"
[general]
bar_height = 30
bg = "#000000"
fg = "#ffffff"
font = "~/.fonts/sans.ttf"
font_height = 18
spacing = 5
left_blocks = "menu"
center_blocks = " clock   date "
right_blocks = ""

[menu]
module = "text"
text = "Menu"
bg = "#ff0000"

[menu.mouse]
hover_bg = "#00ff00"
command = "rofi"

[clock]
module = "command"
command = "date +%H:%M"
interval = 1000
font_height = 40

[date]
module = "command"
command = "date +%F"
spacing = 0
"##;

fn sans() -> Resources {
    with_font("/home/me/.fonts/sans.ttf")
}

#[test]
fn block_is_made_by_its_name() {
    let value = doc(WHOLE);
    let mut config = defaults();
    config.interval = 0;
    let made = block_named(&value, "clock", &config, HOME, &sans()).unwrap();
    let block = command_of(&made);
    assert_eq!(block.command, "date +%H:%M");
    assert_eq!(block.interval, 1000);
    assert_eq!(block.font_height, 30);
    assert_eq!(block.spacing, 8);
    assert_eq!(block.font, "/fonts/default.ttf");
    config.font = None;
    assert!(matches!(block_named(&value, "menu", &config, HOME, &sans()), Err(ConfigError::FontRequired)));
    assert_eq!(
        message(block_named(&value, "nothing", &config, HOME, &sans())),
        "Could not find toml value nothing."
    );
}

#[test]
fn block_of_an_unknown_module() {
    let value = doc("[a]\nmodule = \"weather\"\n[b]\ntext = \"x\"\n[c]\nmodule = 3\n");
    assert_eq!(
        message(block_named(&value, "a", &defaults(), HOME, &Resources::new())),
        "Unable to find module weather."
    );
    assert_eq!(
        message(block_named(&value, "b", &defaults(), HOME, &Resources::new())),
        "Could not find toml value module."
    );
    assert!(matches!(
        block_named(&value, "c", &defaults(), HOME, &Resources::new()),
        Err(ConfigError::NotString(_))
    ));
}

#[test]
fn blocks_of_a_group_are_read_in_order() {
    let value = doc(WHOLE);
    let general = value.get("general").unwrap();
    let mut config = defaults();
    config.font = Some("/fonts/default.ttf".to_string());
    let blocks = toml_value_to_blocks(general, &value, "center_blocks", &config, HOME, &sans()).unwrap();
    assert_eq!(blocks.len(), 2);
    assert_eq!(command_of(&blocks[0]).command, "date +%H:%M");
    assert_eq!(command_of(&blocks[1]).command, "date +%F");
    assert_eq!(command_of(&blocks[1]).spacing, 0);
    let blocks = toml_value_to_blocks(general, &value, "right_blocks", &config, HOME, &sans()).unwrap();
    assert!(blocks.is_empty());
    let blocks = toml_value_to_blocks(general, &value, "left_blocks", &config, HOME, &sans()).unwrap();
    assert_eq!(blocks.len(), 1);
    assert_eq!(text_of(&blocks[0]).text, "Menu");
    assert!(matches!(
        toml_value_to_blocks(general, &value, "top_blocks", &config, HOME, &sans()),
        Err(ConfigError::Missing(_))
    ));
    assert!(matches!(
        toml_value_to_blocks(general, &value, "bar_height", &config, HOME, &sans()),
        Err(ConfigError::NotString(_))
    ));
}

#[test]
fn first_block_that_fails_is_reported() {
    let value = doc("[general]\nblocks = \"a missing b\"\n[a]\nmodule = \"text\"\ntext = \"x\"\n[b]\nmodule = \"none\"\n");
    let general = value.get("general").unwrap();
    assert_eq!(
        message(toml_value_to_blocks(general, &value, "blocks", &defaults(), HOME, &Resources::new())),
        "Could not find toml value missing."
    );
}

#[test]
fn whole_document_is_read() {
    let value = doc(WHOLE);
    match parse_settings(&value, HOME, &Resources::new()) {
        Err(ConfigError::WantedFont(path)) => assert_eq!(path, "/home/me/.fonts/sans.ttf"),
        other => panic!("{:?}", other),
    }
    let config = parse_settings(&value, HOME, &sans()).unwrap();
    assert_eq!(config.bar_height, 30);
    assert_eq!(config.top, true);
    assert_eq!(config.bg.get_pixel(0, 0), Rgba::new(0, 0, 0, 255));
    assert_eq!(config.fg, Rgba::new(255, 255, 255, 255));
    assert_eq!(config.font, Some("/home/me/.fonts/sans.ttf".to_string()));
    assert_eq!(config.font_height, Some(18));
    assert_eq!((config.resize, config.width, config.spacing, config.interval), (false, 0, 5, 0));
    assert_eq!(config.left_blocks.len(), 1);
    assert_eq!(config.center_blocks.len(), 2);
    assert_eq!(config.right_blocks.len(), 0);
    let menu = text_of(&config.left_blocks[0]);
    assert_eq!(menu.text, "Menu");
    assert_eq!(menu.bg_col.get_pixel(0, 0), Rgba::new(255, 0, 0, 255));
    assert_eq!(menu.hover_bg_col.get_pixel(0, 0), Rgba::new(0, 255, 0, 255));
    assert_eq!(menu.hover_fg_col, Rgba::new(255, 255, 255, 255));
    assert_eq!(menu.click_command, Some("rofi".to_string()));
    assert_eq!(menu.font_height, 18);
    assert_eq!(menu.bar_height, 30);
    assert_eq!(menu.spacing, 5);
    let clock = command_of(&config.center_blocks[0]);
    assert_eq!(clock.interval, 1000);
    assert_eq!(clock.font_height, 30);
    assert_eq!(clock.bg_col.get_pixel(0, 0), Rgba::new(0, 0, 0, 255));
    let date = command_of(&config.center_blocks[1]);
    assert_eq!(date.interval, 0);
    assert_eq!(date.spacing, 0);
    assert_eq!(date.font, "/home/me/.fonts/sans.ttf");
}

#[test]
fn document_defaults() {
    let value = doc("[general]\nbar_height = 20\nfont = \"f\"\nfont_height = 9\ntop = false\nleft_blocks = \"\"\ncenter_blocks = \"\"\nright_blocks = \"\"\n");
    let config = parse_settings(&value, HOME, &with_font("f")).unwrap();
    assert_eq!(config.bg.width(), 1);
    assert_eq!(config.bg.height(), 1);
    assert_eq!(config.bg.get_pixel(0, 0), Rgba::new(0, 0, 0, 255));
    assert_eq!(config.fg, Rgba::new(255, 255, 255, 255));
    assert_eq!(config.top, false);
    assert_eq!((config.resize, config.width, config.spacing, config.interval), (false, 0, 0, 0));
}

#[test]
fn document_faults() {
    let resources = with_font("f");
    assert_eq!(
        message(parse_settings(&doc("[other]\na = 1\n"), HOME, &resources)),
        "Could not find toml value general."
    );
    assert!(matches!(
        parse_settings(&doc("[general]\nbar_height = 3\n"), HOME, &resources),
        Err(ConfigError::FontRequired)
    ));
    assert!(matches!(
        parse_settings(&doc("[general]\nbar_height = 3\nfont = \"f\"\n"), HOME, &resources),
        Err(ConfigError::FontHeightRequired)
    ));
    assert_eq!(
        message(parse_settings(&doc("[general]\nfont = \"f\"\nfont_height = 3\n"), HOME, &resources)),
        "Could not find toml value bar_height."
    );
    assert_eq!(
        message(parse_settings(
            &doc("[general]\nfont = \"f\"\nfont_height = 3\nbar_height = 4\n"),
            HOME,
            &resources
        )),
        "Could not find toml value left_blocks."
    );
    assert_eq!(
        message(parse_settings(
            &doc("[general]\nfont = \"f\"\nfont_height = 3\nbar_height = 4\nleft_blocks = \"\"\ncenter_blocks = \"x\"\n"),
            HOME,
            &resources
        )),
        "Could not find toml value x."
    );
    assert_eq!(
        message(parse_settings(
            &doc("[general]\nfont = \"f\"\nfont_height = 3\nbar_height = 4\nleft_blocks = \"\"\ncenter_blocks = \"\"\n"),
            HOME,
            &resources
        )),
        "Could not find toml value right_blocks."
    );
}

#[test]
fn settings_are_read_from_their_text() {
    let config = read_config(WHOLE, HOME, &sans()).unwrap();
    assert_eq!(config.center_blocks.len(), 2);
    assert_eq!(text_of(&config.left_blocks[0]).text, "Menu");
}

#[test]
fn backslashes_in_the_text_escape_nothing() {
    let text = "[general]\nbar_height = 4\nfont = \"f\"\nfont_height = 3\nleft_blocks = \"a\"\ncenter_blocks = \"\"\nright_blocks = \"\"\n[a]\nmodule = \"text\"\ntext = \"C:\\new\\table\"\n";
    let config = read_config(text, HOME, &with_font("f")).unwrap();
    assert_eq!(text_of(&config.left_blocks[0]).text, "C:\\new\\table");
}

#[test]
fn text_that_is_no_toml() {
    assert!(matches!(read_config("[general", HOME, &Resources::new()), Err(ConfigError::Unparsable)));
    assert!(matches!(read_config("a = ", HOME, &Resources::new()), Err(ConfigError::Unparsable)));
    assert_eq!(message(read_config("= 3", HOME, &Resources::new())), "Unable to parse config.");
}

#[test]
fn files_are_asked_for_one_after_the_other() {
    let text = "[general]\nbar_height = 4\nbg = \"~/bg.png\"\nfont = \"~/f.ttf\"\nfont_height = 3\nleft_blocks = \"a\"\ncenter_blocks = \"\"\nright_blocks = \"\"\n[a]\nmodule = \"text\"\ntext = \"x\"\n[a.mouse]\nhover_bg = \"$HOME/h.png\"\n";
    let mut resources = Resources::new();
    let mut asked = Vec::new();
    let config = loop {
        match read_config(text, HOME, &resources) {
            Err(ConfigError::WantedImage(path)) => {
                asked.push(path.clone());
                let image = if path.ends_with("h.png") { Some(Image::filled(2, 2, Rgba::new(8, 8, 8, 8))) } else { None };
                resources.images.push((path, image));
            }
            Err(ConfigError::WantedFont(path)) => {
                asked.push(path.clone());
                resources.fonts.push((path, true));
            }
            other => break other.unwrap(),
        }
    };
    assert_eq!(asked, vec!["/home/me/bg.png", "/home/me/f.ttf", "/home/me/h.png"]);
    assert_eq!(config.bg.get_pixel(0, 0), Rgba::new(0, 0, 0, 255));
    let block = text_of(&config.left_blocks[0]);
    assert_eq!(block.hover_bg_col.width(), 2);
    assert_eq!(block.bg_col.width(), 1);
}

#[test]
fn low_bits_of_numbers() {
    assert_eq!(low_bits(0), 0);
    assert_eq!(low_bits(30), 30);
    assert_eq!(low_bits(4294967295), 4294967295);
    assert_eq!(low_bits(4294967296), 0);
    assert_eq!(low_bits(-1), 4294967295);
    assert_eq!(low_bits(-4294967296), 0);
    assert_eq!(low_bits(i64::MIN), 0);
    assert_eq!(low_bits(i64::MAX), 4294967295);
    assert_eq!(low_bits(0x1234_5678_9abc_def0), 0x9abc_def0);
}

#[test]
fn image_of_a_text() {
    let mut resources = Resources::new();
    let img = image_from_text("#01020304", HOME, &resources).unwrap();
    assert_eq!((img.width(), img.height()), (1, 1));
    assert_eq!(img.get_pixel(0, 0), Rgba::new(1, 2, 3, 4));
    assert!(matches!(image_from_text("#nothing", HOME, &resources), Err(ConfigError::InvalidColor(_))));
    assert!(matches!(image_from_text("#", HOME, &resources), Err(ConfigError::InvalidColor(_))));
    match image_from_text("", HOME, &resources) {
        Err(ConfigError::WantedImage(path)) => assert_eq!(path, ""),
        other => panic!("{:?}", other),
    }
    match image_from_text("x#ff00ff", HOME, &resources) {
        Err(ConfigError::WantedImage(path)) => assert_eq!(path, "x#ff00ff"),
        other => panic!("{:?}", other),
    }
    resources.images.push(("/home/me/a.png".to_string(), Some(Image::new(4, 5))));
    assert_eq!(image_from_text("~/a.png", HOME, &resources).unwrap().width(), 4);
    assert_eq!(image_from_text("$HOME/a.png", HOME, &resources).unwrap().height(), 5);
    assert_eq!(image_from_text("/home/me/a.png", "/root", &resources).unwrap().width(), 4);
    assert!(matches!(image_from_text("~/a.png", "/root", &resources), Err(ConfigError::WantedImage(_))));
}

#[test]
fn font_of_a_text() {
    let mut resources = Resources::new();
    match font_from_text("$HOME/f.ttf", HOME, &resources) {
        Err(ConfigError::WantedFont(path)) => assert_eq!(path, "/home/meHOME/f.ttf"),
        other => panic!("{:?}", other),
    }
    resources.fonts.push(("/home/me/f.ttf".to_string(), true));
    assert_eq!(font_from_text("~/f.ttf", HOME, &resources).unwrap(), "/home/me/f.ttf");
    assert_eq!(font_from_text("$/f.ttf", HOME, &resources).unwrap(), "/home/me/f.ttf");
    assert_eq!(font_from_text("/home/me/f.ttf", HOME, &resources).unwrap(), "/home/me/f.ttf");
}

fn nothing() -> BlockEntries {
    BlockEntries {
        bg: Err(ConfigError::Missing("bg".to_string())),
        fg: Err(ConfigError::Missing("fg".to_string())),
        resize: Err(ConfigError::Missing("resize".to_string())),
        width: Err(ConfigError::Missing("width".to_string())),
        spacing: Err(ConfigError::Missing("spacing".to_string())),
        interval: Err(ConfigError::Missing("interval".to_string())),
        font: Err(ConfigError::Missing("font".to_string())),
        font_height: Err(ConfigError::Missing("font_height".to_string())),
    }
}

#[test]
fn settings_are_chosen_from_entries_and_fallback() {
    let config = choose_settings(nothing(), &defaults()).unwrap();
    assert_eq!(config.bg.get_pixel(0, 0), Rgba::new(1, 2, 3, 255));
    assert_eq!(config.fg, Rgba::new(4, 5, 6, 255));
    assert_eq!(config.font, Some("/fonts/default.ttf".to_string()));
    assert_eq!(config.font_height, Some(12));
    assert_eq!((config.resize, config.width, config.spacing, config.interval), (true, 7, 8, 9));
    assert_eq!((config.bar_height, config.top), (30, false));
    let all = BlockEntries {
        bg: Ok(Image::filled(2, 2, Rgba::new(9, 9, 9, 9))),
        fg: Ok(Rgba::new(8, 8, 8, 8)),
        resize: Ok(false),
        width: Ok(70),
        spacing: Ok(80),
        interval: Ok(90),
        font: Ok("f.ttf".to_string()),
        font_height: Ok(100),
    };
    let config = choose_settings(all, &defaults()).unwrap();
    assert_eq!(config.bg.width(), 2);
    assert_eq!(config.fg, Rgba::new(8, 8, 8, 8));
    assert_eq!(config.font, Some("f.ttf".to_string()));
    assert_eq!(config.font_height, Some(100));
    assert_eq!((config.resize, config.width, config.spacing, config.interval), (false, 70, 80, 90));
    assert_eq!((config.bar_height, config.top), (30, false));
}

#[test]
fn settings_faults_in_their_order() {
    let mut bare = defaults();
    bare.font = None;
    bare.font_height = None;
    let mut entries = nothing();
    entries.bg = Err(ConfigError::WantedImage("b".to_string()));
    entries.font = Err(ConfigError::WantedFont("f".to_string()));
    assert!(matches!(choose_settings(entries, &bare), Err(ConfigError::WantedImage(_))));
    let mut entries = nothing();
    entries.bg = Err(ConfigError::Unavailable("b".to_string()));
    entries.font = Err(ConfigError::WantedFont("f".to_string()));
    assert!(matches!(choose_settings(entries, &bare), Err(ConfigError::WantedFont(_))));
    assert!(matches!(choose_settings(nothing(), &bare), Err(ConfigError::FontRequired)));
    let mut entries = nothing();
    entries.font = Ok("f".to_string());
    assert!(matches!(choose_settings(entries, &bare), Err(ConfigError::FontHeightRequired)));
    let mut entries = nothing();
    entries.font = Ok("f".to_string());
    entries.font_height = Ok(3);
    let config = choose_settings(entries, &bare).unwrap();
    assert_eq!(config.font, Some("f".to_string()));
    assert_eq!(config.font_height, Some(3));
}

#[test]
fn entries_are_read_from_a_table() {
    let value = doc("bg = \"#010203\"\nwidth = 5\nfont = \"~/f\"\nresize = 3\n");
    let entries = read_entries(&value, HOME, &Resources::new());
    assert_eq!(entries.bg.unwrap().get_pixel(0, 0), Rgba::new(1, 2, 3, 255));
    assert!(matches!(entries.fg, Err(ConfigError::Missing(_))));
    assert!(matches!(entries.resize, Err(ConfigError::NotBool(_))));
    assert_eq!(entries.width.unwrap(), 5);
    assert!(matches!(entries.spacing, Err(ConfigError::Missing(_))));
    assert!(matches!(entries.interval, Err(ConfigError::Missing(_))));
    assert!(matches!(entries.font, Err(ConfigError::WantedFont(_))));
    assert!(matches!(entries.font_height, Err(ConfigError::Missing(_))));
}

#[test]
fn hover_is_chosen_from_entries_and_fallback() {
    let bg = Image::filled(1, 1, Rgba::new(1, 1, 1, 1));
    let fg = Rgba::new(2, 2, 2, 2);
    let hover = choose_hover(&bg, fg, None).unwrap();
    assert_eq!(hover.bg.get_pixel(0, 0), Rgba::new(1, 1, 1, 1));
    assert_eq!(hover.fg, fg);
    assert_eq!(hover.command, None);
    let entries = HoverEntries {
        bg: Ok(Image::filled(1, 1, Rgba::new(3, 3, 3, 3))),
        fg: Ok(Rgba::new(4, 4, 4, 4)),
        command: Ok("run".to_string()),
    };
    let hover = choose_hover(&bg, fg, Some(entries)).unwrap();
    assert_eq!(hover.bg.get_pixel(0, 0), Rgba::new(3, 3, 3, 3));
    assert_eq!(hover.fg, Rgba::new(4, 4, 4, 4));
    assert_eq!(hover.command, Some("run".to_string()));
    let entries = HoverEntries {
        bg: Err(ConfigError::Unavailable("x".to_string())),
        fg: Err(ConfigError::InvalidColor("x".to_string())),
        command: Err(ConfigError::NotString("command".to_string())),
    };
    let hover = choose_hover(&bg, fg, Some(entries)).unwrap();
    assert_eq!(hover.bg.get_pixel(0, 0), Rgba::new(1, 1, 1, 1));
    assert_eq!(hover.fg, fg);
    assert_eq!(hover.command, None);
    let entries = HoverEntries {
        bg: Err(ConfigError::WantedImage("x".to_string())),
        fg: Ok(fg),
        command: Ok("run".to_string()),
    };
    match choose_hover(&bg, fg, Some(entries)) {
        Err(ConfigError::WantedImage(path)) => assert_eq!(path, "x"),
        other => panic!("{:?}", other),
    }
}

#[test]
fn mouse_table_is_read() {
    assert!(read_hover(&doc("text = \"a\""), HOME, &Resources::new()).is_none());
    assert!(read_hover(&doc("mouse = 3"), HOME, &Resources::new()).is_some());
    let entries = read_hover(&doc("[mouse]\nhover_fg = \"#010101\"\ncommand = 1\n"), HOME, &Resources::new()).unwrap();
    assert!(matches!(entries.bg, Err(ConfigError::Missing(_))));
    assert_eq!(entries.fg.unwrap(), Rgba::new(1, 1, 1, 255));
    assert!(matches!(entries.command, Err(ConfigError::NotString(_))));
}

fn hover() -> Hover {
    Hover { bg: Image::filled(1, 1, Rgba::new(7, 7, 7, 7)), fg: Rgba::new(8, 8, 8, 8), command: Some("go".to_string()) }
}

#[test]
fn text_block_is_assembled() {
    let made = TextBlock::new(defaults(), "label".to_string(), hover()).unwrap();
    let block = text_of(&made);
    assert_eq!(block.text, "label");
    assert_eq!((block.bar_height, block.font_height, block.width, block.spacing), (30, 12, 7, 8));
    assert_eq!(block.font, "/fonts/default.ttf");
    assert_eq!(block.bg_col.get_pixel(0, 0), Rgba::new(1, 2, 3, 255));
    assert_eq!(block.fg_col, Rgba::new(4, 5, 6, 255));
    assert_eq!(block.hover_bg_col.get_pixel(0, 0), Rgba::new(7, 7, 7, 7));
    assert_eq!(block.hover_fg_col, Rgba::new(8, 8, 8, 8));
    assert_eq!(block.click_command, Some("go".to_string()));
    assert!(block.cache.is_none());
    assert!(!block.hover);
    let mut config = defaults();
    config.font_height = Some(31);
    assert_eq!(text_of(&TextBlock::new(config, String::new(), hover()).unwrap()).font_height, 30);
    let mut config = defaults();
    config.font_height = Some(29);
    assert_eq!(text_of(&TextBlock::new(config, String::new(), hover()).unwrap()).font_height, 29);
    let mut config = defaults();
    config.font = None;
    assert!(matches!(TextBlock::new(config, String::new(), hover()), Err(ConfigError::FontRequired)));
    let mut config = defaults();
    config.font = None;
    config.font_height = None;
    assert!(matches!(TextBlock::new(config, String::new(), hover()), Err(ConfigError::FontHeightRequired)));
}

#[test]
fn command_block_is_assembled() {
    let made = CommandBlock::new(defaults(), "uptime".to_string(), hover()).unwrap();
    let block = command_of(&made);
    assert_eq!(block.command, "uptime");
    assert_eq!(block.interval, 9);
    assert_eq!((block.bar_height, block.font_height, block.width, block.spacing), (30, 12, 7, 8));
    assert_eq!(block.hover_fg_col, Rgba::new(8, 8, 8, 8));
    assert_eq!(block.click_command, Some("go".to_string()));
    assert!(block.cache.is_none());
    let mut config = defaults();
    config.font_height = None;
    assert!(matches!(CommandBlock::new(config, String::new(), hover()), Err(ConfigError::FontHeightRequired)));
}

#[test]
fn missing_text_is_reported_before_a_wanted_file() {
    let value = doc("[mouse]\nhover_bg = \"~/h.png\"\n");
    assert!(matches!(
        TextBlock::create(defaults(), &value, HOME, &Resources::new()),
        Err(ConfigError::Missing(_))
    ));
    let value = doc("text = \"a\"\n[mouse]\nhover_bg = \"~/h.png\"\n");
    let mut config = defaults();
    config.font = None;
    assert!(matches!(
        TextBlock::create(config, &value, HOME, &Resources::new()),
        Err(ConfigError::WantedImage(_))
    ));
}

#[test]
fn paths_are_expanded_as_the_standard_library_replaces() {
    let resources = Resources::new();
    for (text, home) in [
        ("~~", "a~"),
        ("$HOME$HOME", "/h"),
        ("$HOM$HOME", "/h"),
        ("$$HOME", "$HOME"),
        ("~/$HOME/~", "/home/$HOME"),
        ("", "/h"),
        ("plain", ""),
        ("é~ü$HOMEß", "/ö"),
    ] {
        let want = text.replace('~', home).replace("$HOME", home);
        match image_from_text(text, home, &resources) {
            Err(ConfigError::WantedImage(path)) => assert_eq!(path, want),
            other => panic!("{:?}", other),
        }
        let want = text.replace("$", home).replace("~", home);
        match font_from_text(text, home, &resources) {
            Err(ConfigError::WantedFont(path)) => assert_eq!(path, want),
            other => panic!("{:?}", other),
        }
    }
}

#[test]
fn colour_that_starts_with_a_character_of_several_bytes() {
    for text in ["é123456", "é12345678", "€ff00ff", "\u{80}ff00ff", "😀ff00ffff"] {
        match string_to_rgba(text) {
            Err(ConfigError::InvalidColor(bad)) => assert_eq!(bad, text),
            other => panic!("{:?} read as {:?}", text, other),
        }
    }
    assert_eq!(string_to_rgba("\u{7f}123456").unwrap(), Rgba::new(0x12, 0x34, 0x56, 255));
    assert_eq!(string_to_rgba("\u{0}123456").unwrap(), Rgba::new(0x12, 0x34, 0x56, 255));
    assert!(matches!(string_to_rgba("#é23456"), Err(ConfigError::InvalidColor(_))));
    assert!(matches!(string_to_rgba("#12345é"), Err(ConfigError::InvalidColor(_))));
    assert!(matches!(string_to_rgba("#123456é"), Err(ConfigError::InvalidColor(_))));
    assert!(matches!(string_to_rgba("#123456aé"), Err(ConfigError::InvalidColor(_))));
    assert_eq!(string_to_rgba("#12345678é").unwrap(), Rgba::new(0x12, 0x34, 0x56, 0x78));
}

#[test]
fn white_space_is_what_the_standard_library_takes_for_it() {
    for code in 0..=0x10ffffu32 {
        if let Some(c) = char::from_u32(code) {
            assert_eq!(is_white_space(c), c.is_whitespace(), "{:x}", code);
        }
    }
}

#[test]
fn block_names_are_trimmed_of_white_space() {
    let text = "[general]\nblocks = \"\\ta\\n \u{a0}b\u{3000} c\u{200b} \\t \u{2003}d\"\n[a]\nmodule = \"text\"\ntext = \"A\"\n[b]\nmodule = \"text\"\ntext = \"B\"\n[\"c\u{200b}\"]\nmodule = \"text\"\ntext = \"C\"\n[d]\nmodule = \"text\"\ntext = \"D\"\n";
    let value = doc(text);
    let general = value.get("general").unwrap();
    let blocks = toml_value_to_blocks(general, &value, "blocks", &defaults(), HOME, &Resources::new()).unwrap();
    let texts: Vec<&str> = blocks.iter().map(|block| text_of(block).text.as_str()).collect();
    assert_eq!(texts, vec!["A", "B", "C", "D"]);
}
