use vstd::prelude::*;
use vstd::string::StringExecFns;

use crate::bitmap::{Image, Raster, Rgba};
use crate::modules::text::push_char;
use crate::modules::{
    block_created, block_fault, create_block, find_module, module_of, Alignment, Block, BlockId,
};

verus! {

/// The bar's settings: the defaults that every block starts from, the bar's own
/// geometry, and the blocks of its three groups.
#[derive(Debug)]
pub struct Config {
    pub bg: Image,
    pub fg: Rgba,
    /// The font file that text is set in.
    pub font: Option<String>,
    pub font_height: Option<u32>,
    pub resize: bool,
    pub width: u32,
    pub spacing: u32,
    pub interval: u32,
    pub bar_height: u32,
    pub top: bool,
    pub left_blocks: Vec<Block>,
    pub center_blocks: Vec<Block>,
    pub right_blocks: Vec<Block>,
}

impl Config {
    /// The blocks of one of the bar's groups, from left to right.
    pub open spec fn group(self, alignment: Alignment) -> Seq<Block> {
        match alignment {
            Alignment::LEFT => self.left_blocks@,
            Alignment::CENTER => self.center_blocks@,
            Alignment::RIGHT => self.right_blocks@,
        }
    }

    /// The bar has a block of this name.
    pub open spec fn has_block(self, id: BlockId) -> bool {
        id.index < self.group(id.alignment).len()
    }

    /// The block of this name.
    pub open spec fn block(self, id: BlockId) -> Block {
        self.group(id.alignment)[id.index as int]
    }

    /// The number of blocks on the bar.
    pub open spec fn block_count(self) -> nat {
        self.left_blocks@.len() + self.center_blocks@.len() + self.right_blocks@.len()
    }

    /// The settings with the blocks of one group replaced.
    pub open spec fn with_group(self, alignment: Alignment, blocks: Vec<Block>) -> Config {
        match alignment {
            Alignment::LEFT => Config { left_blocks: blocks, ..self },
            Alignment::CENTER => Config { center_blocks: blocks, ..self },
            Alignment::RIGHT => Config { right_blocks: blocks, ..self },
        }
    }
}

#[verifier::external_type_specification]
#[verifier::external_body]
pub struct ExTomlValue(toml::Value);

/// What a TOML table holds under a key: what `toml::Value::get` returns for a
/// string key. A value that is no table holds nothing.
pub uninterp spec fn entry_of(value: toml::Value, key: Seq<char>) -> Option<toml::Value>;

/// The text of a TOML string: what `toml::Value::as_str` returns.
pub uninterp spec fn text_of(value: toml::Value) -> Option<Seq<char>>;

/// The number of a TOML integer: what `toml::Value::as_integer` returns.
pub uninterp spec fn integer_of(value: toml::Value) -> Option<i64>;

/// The truth value of a TOML boolean: what `toml::Value::as_bool` returns.
pub uninterp spec fn flag_of(value: toml::Value) -> Option<bool>;

/// Calls `toml::Value::get` with a string key.
///
/// Trusted: the result is the table's entry under that key, and `None` where
/// there is none or the value is no table. It depends on the value and the key
/// alone.
#[verifier::external_body]
pub(crate) fn toml_get<'a>(value: &'a toml::Value, key: &str) -> (entry: Option<&'a toml::Value>)
    ensures
        match entry {
            Some(entry) => entry_of(*value, key@) == Some(*entry),
            None => entry_of(*value, key@) is None,
        },
{
    value.get(key)
}

/// Calls `toml::Value::as_str`.
///
/// Trusted: the result is the text of a string value and `None` for any other
/// value.
#[verifier::external_body]
fn toml_as_str<'a>(value: &'a toml::Value) -> (text: Option<&'a str>)
    ensures
        match text {
            Some(text) => text_of(*value) == Some(text@),
            None => text_of(*value) is None,
        },
{
    value.as_str()
}

/// Calls `toml::Value::as_integer`.
///
/// Trusted: the result is the number of an integer value and `None` for any
/// other value.
#[verifier::external_body]
fn toml_as_integer(value: &toml::Value) -> (number: Option<i64>)
    ensures
        number == integer_of(*value),
{
    value.as_integer()
}

/// Calls `toml::Value::as_bool`.
///
/// Trusted: the result is the truth value of a boolean value and `None` for any
/// other value.
#[verifier::external_body]
fn toml_as_bool(value: &toml::Value) -> (flag: Option<bool>)
    ensures
        flag == flag_of(*value),
{
    value.as_bool()
}

/// Why the settings could not be read.
#[derive(Debug)]
pub enum ConfigError {
    /// There is no value under this name.
    Missing(String),
    /// The value under this name is no boolean.
    NotBool(String),
    /// The value under this name is no integer.
    NotInteger(String),
    /// The value under this name is no string.
    NotString(String),
    /// This text is no colour.
    InvalidColor(String),
    /// The file of this path has to be loaded as an image before the settings
    /// can be read.
    WantedImage(String),
    /// The file of this path has to be loaded as a font before the settings can
    /// be read.
    WantedFont(String),
    /// The file of this path could not be loaded.
    Unavailable(String),
    /// Neither the block nor the bar names a font.
    FontRequired,
    /// Neither the block nor the bar gives a font height.
    FontHeightRequired,
    /// No module has this name.
    UnknownModule(String),
    /// The text of the settings is no TOML document.
    Unparsable,
}

/// A `ConfigError` with its texts as sequences of characters.
pub enum ConfigFault {
    Missing(Seq<char>),
    NotBool(Seq<char>),
    NotInteger(Seq<char>),
    NotString(Seq<char>),
    InvalidColor(Seq<char>),
    WantedImage(Seq<char>),
    WantedFont(Seq<char>),
    Unavailable(Seq<char>),
    FontRequired,
    FontHeightRequired,
    UnknownModule(Seq<char>),
    Unparsable,
}

impl View for ConfigError {
    type V = ConfigFault;

    open spec fn view(&self) -> ConfigFault {
        match *self {
            ConfigError::Missing(name) => ConfigFault::Missing(name@),
            ConfigError::NotBool(name) => ConfigFault::NotBool(name@),
            ConfigError::NotInteger(name) => ConfigFault::NotInteger(name@),
            ConfigError::NotString(name) => ConfigFault::NotString(name@),
            ConfigError::InvalidColor(text) => ConfigFault::InvalidColor(text@),
            ConfigError::WantedImage(path) => ConfigFault::WantedImage(path@),
            ConfigError::WantedFont(path) => ConfigFault::WantedFont(path@),
            ConfigError::Unavailable(path) => ConfigFault::Unavailable(path@),
            ConfigError::FontRequired => ConfigFault::FontRequired,
            ConfigError::FontHeightRequired => ConfigFault::FontHeightRequired,
            ConfigError::UnknownModule(name) => ConfigFault::UnknownModule(name@),
            ConfigError::Unparsable => ConfigFault::Unparsable,
        }
    }
}

impl ConfigFault {
    /// The fault asks for a file to be loaded; it is no verdict on the
    /// settings.
    pub open spec fn is_wanted(self) -> bool {
        self is WantedImage || self is WantedFont
    }

    /// The fault in words, with the name, text or path that it is about.
    pub open spec fn message(self) -> Seq<char> {
        match self {
            ConfigFault::Missing(name) => "Could not find toml value "@ + name + "."@,
            ConfigFault::NotBool(name) => "Toml value "@ + name + " is not a boolean."@,
            ConfigFault::NotInteger(name) => "Toml value "@ + name + " is not an integer."@,
            ConfigFault::NotString(name) => "Toml value "@ + name + " is not a string."@,
            ConfigFault::InvalidColor(text) => "Not a colour: "@ + text + "."@,
            ConfigFault::WantedImage(path) => "Image not loaded yet: "@ + path + "."@,
            ConfigFault::WantedFont(path) => "Font not loaded yet: "@ + path + "."@,
            ConfigFault::Unavailable(path) => "Could not load "@ + path + "."@,
            ConfigFault::FontRequired => "Font required in [general]."@,
            ConfigFault::FontHeightRequired => "Font height required in [general]."@,
            ConfigFault::UnknownModule(name) => "Unable to find module "@ + name + "."@,
            ConfigFault::Unparsable => "Unable to parse config."@,
        }
    }
}

/// Puts a text between two others.
fn framed(before: &str, text: &str, after: &str) -> (out: String)
    ensures
        out@ == before@ + text@ + after@,
{
    let mut out = before.to_owned();
    out.append(text);
    out.append(after);
    out
}

impl ConfigError {
    /// The error in words, with the name, text or path that it is about.
    pub fn message(&self) -> (text: String)
        ensures
            text@ == self@.message(),
    {
        match self {
            ConfigError::Missing(name) => framed("Could not find toml value ", name.as_str(), "."),
            ConfigError::NotBool(name) => framed("Toml value ", name.as_str(), " is not a boolean."),
            ConfigError::NotInteger(name) => framed(
                "Toml value ",
                name.as_str(),
                " is not an integer.",
            ),
            ConfigError::NotString(name) => framed("Toml value ", name.as_str(), " is not a string."),
            ConfigError::InvalidColor(text) => framed("Not a colour: ", text.as_str(), "."),
            ConfigError::WantedImage(path) => framed("Image not loaded yet: ", path.as_str(), "."),
            ConfigError::WantedFont(path) => framed("Font not loaded yet: ", path.as_str(), "."),
            ConfigError::Unavailable(path) => framed("Could not load ", path.as_str(), "."),
            ConfigError::FontRequired => "Font required in [general].".to_owned(),
            ConfigError::FontHeightRequired => "Font height required in [general].".to_owned(),
            ConfigError::UnknownModule(name) => framed("Unable to find module ", name.as_str(), "."),
            ConfigError::Unparsable => "Unable to parse config.".to_owned(),
        }
    }
}

/// What reading a flag, a number or a colour gave, with the texts of an error
/// as sequences of characters.
pub open spec fn plain_result<T>(res: Result<T, ConfigError>) -> Result<T, ConfigFault> {
    match res {
        Ok(value) => Ok(value),
        Err(e) => Err(e@),
    }
}

/// What reading a text gave, as a sequence of characters.
pub open spec fn text_result(res: Result<String, ConfigError>) -> Result<Seq<char>, ConfigFault> {
    match res {
        Ok(text) => Ok(text@),
        Err(e) => Err(e@),
    }
}

/// What reading an image gave, as the raster that the image holds.
pub open spec fn image_result(res: Result<Image, ConfigError>) -> Result<Raster, ConfigFault> {
    match res {
        Ok(image) => Ok(image@),
        Err(e) => Err(e@),
    }
}

/// The boolean that a table holds under a name.
pub open spec fn bool_entry(value: toml::Value, name: Seq<char>) -> Result<bool, ConfigFault> {
    match entry_of(value, name) {
        None => Err(ConfigFault::Missing(name)),
        Some(entry) => match flag_of(entry) {
            None => Err(ConfigFault::NotBool(name)),
            Some(flag) => Ok(flag),
        },
    }
}

/// The integer that a table holds under a name, reduced to 32 bits: of a number
/// that does not fit, the lowest 32 bits are taken.
pub open spec fn integer_entry(value: toml::Value, name: Seq<char>) -> Result<u32, ConfigFault> {
    match entry_of(value, name) {
        None => Err(ConfigFault::Missing(name)),
        Some(entry) => match integer_of(entry) {
            None => Err(ConfigFault::NotInteger(name)),
            Some(number) => Ok(low_32(number)),
        },
    }
}

/// The lowest 32 bits of a number, read as a number again. A number from 0 to
/// 4294967295 is left as it is.
pub open spec fn low_32(number: i64) -> u32 {
    (number as int % 0x1_0000_0000) as u32
}

/// The text that a table holds under a name.
pub open spec fn string_entry(value: toml::Value, name: Seq<char>) -> Result<Seq<char>, ConfigFault> {
    match entry_of(value, name) {
        None => Err(ConfigFault::Missing(name)),
        Some(entry) => match text_of(entry) {
            None => Err(ConfigFault::NotString(name)),
            Some(text) => Ok(text),
        },
    }
}

/// Reads the boolean under `name`.
pub fn toml_value_to_bool(general_val: &toml::Value, name: &str) -> (res: Result<bool, ConfigError>)
    ensures
        plain_result(res) == bool_entry(*general_val, name@),
{
    match toml_get(general_val, name) {
        None => Err(ConfigError::Missing(name.to_owned())),
        Some(entry) => match toml_as_bool(entry) {
            None => Err(ConfigError::NotBool(name.to_owned())),
            Some(flag) => Ok(flag),
        },
    }
}

/// Takes the lowest 32 bits of a 64-bit number.
pub fn low_bits(number: i64) -> (low: u32)
    ensures
        low == low_32(number),
{
    let low: u32 = #[verifier::truncate]
    (number as u32);
    assert(number as u32 == (number as int % 0x1_0000_0000) as u32) by (bit_vector);
    low
}

/// Reads the integer under `name`.
pub fn toml_value_to_integer(general_val: &toml::Value, name: &str) -> (res: Result<
    u32,
    ConfigError,
>)
    ensures
        plain_result(res) == integer_entry(*general_val, name@),
{
    match toml_get(general_val, name) {
        None => Err(ConfigError::Missing(name.to_owned())),
        Some(entry) => match toml_as_integer(entry) {
            None => Err(ConfigError::NotInteger(name.to_owned())),
            Some(number) => Ok(low_bits(number)),
        },
    }
}

/// Reads the text under `name`.
pub fn toml_value_to_string(general_val: &toml::Value, name: &str) -> (res: Result<
    String,
    ConfigError,
>)
    ensures
        text_result(res) == string_entry(*general_val, name@),
{
    match toml_get(general_val, name) {
        None => Err(ConfigError::Missing(name.to_owned())),
        Some(entry) => match toml_as_str(entry) {
            None => Err(ConfigError::NotString(name.to_owned())),
            Some(text) => Ok(text.to_owned()),
        },
    }
}

/// The value of a hexadecimal digit, in either case.
pub open spec fn hex_digit(c: char) -> Option<u8> {
    if '0' <= c <= '9' {
        Some((c as u32 - '0' as u32) as u8)
    } else if 'a' <= c <= 'f' {
        Some((c as u32 - 'a' as u32 + 10) as u8)
    } else if 'A' <= c <= 'F' {
        Some((c as u32 - 'A' as u32 + 10) as u8)
    } else {
        None
    }
}

/// The number that two characters spell in base sixteen: two hexadecimal
/// digits, or a plus sign and one digit.
pub open spec fn hex_pair(high: char, low: char) -> Option<u8> {
    match hex_digit(low) {
        None => None,
        Some(ones) => if high == '+' {
            Some(ones)
        } else {
            match hex_digit(high) {
                None => None,
                Some(sixteens) => Some((16 * sixteens + ones) as u8),
            }
        },
    }
}

/// The colour that a text of the form `#rrggbb` or `#rrggbbaa` spells.
///
/// The first character is passed over, whatever it is, as long as it takes
/// one byte: a text that starts with a character beyond the first 128 spells
/// no colour. Without the last pair the colour is opaque. What follows the
/// fourth pair is ignored. A text that ends inside a pair or before the third
/// spells no colour.
pub open spec fn color_of(text: Seq<char>) -> Option<Rgba> {
    if text.len() < 7 || text.len() == 8 || text[0] as u32 >= 0x80 {
        None
    } else {
        let alpha = if text.len() > 7 {
            hex_pair(text[7], text[8])
        } else {
            Some(255u8)
        };
        match (hex_pair(text[1], text[2]), hex_pair(text[3], text[4]), hex_pair(text[5], text[6]), alpha) {
            (Some(r), Some(g), Some(b), Some(a)) => Some(Rgba { r, g, b, a }),
            _ => None,
        }
    }
}

/// Reads one hexadecimal digit.
pub fn parse_hex_digit(c: char) -> (value: Option<u8>)
    ensures
        value == hex_digit(c),
{
    if '0' <= c && c <= '9' {
        Some((c as u32 - '0' as u32) as u8)
    } else if 'a' <= c && c <= 'f' {
        Some((c as u32 - 'a' as u32 + 10) as u8)
    } else if 'A' <= c && c <= 'F' {
        Some((c as u32 - 'A' as u32 + 10) as u8)
    } else {
        None
    }
}

/// Reads two characters as a number in base sixteen.
pub fn parse_hex_pair(high: char, low: char) -> (value: Option<u8>)
    ensures
        value == hex_pair(high, low),
{
    match parse_hex_digit(low) {
        None => None,
        Some(ones) => if high == '+' {
            Some(ones)
        } else {
            match parse_hex_digit(high) {
                None => None,
                Some(sixteens) => Some(16 * sixteens + ones),
            }
        },
    }
}

/// Reads a colour of the form `#rrggbb` or `#rrggbbaa`.
pub fn string_to_rgba(col_string: &str) -> (res: Result<Rgba, ConfigError>)
    ensures
        plain_result(res) == rgba_of_text(col_string@),
{
    let n: usize = col_string.unicode_len();
    if n < 7 || n == 8 || col_string.get_char(0) as u32 >= 0x80 {
        return Err(ConfigError::InvalidColor(col_string.to_owned()));
    }
    let red = parse_hex_pair(col_string.get_char(1), col_string.get_char(2));
    let green = parse_hex_pair(col_string.get_char(3), col_string.get_char(4));
    let blue = parse_hex_pair(col_string.get_char(5), col_string.get_char(6));
    let alpha = if n > 7 {
        parse_hex_pair(col_string.get_char(7), col_string.get_char(8))
    } else {
        Some(255u8)
    };
    match (red, green, blue, alpha) {
        (Some(r), Some(g), Some(b), Some(a)) => Ok(Rgba { r, g, b, a }),
        _ => Err(ConfigError::InvalidColor(col_string.to_owned())),
    }
}

/// The colour that a text spells, or the fault that it spells none.
pub open spec fn rgba_of_text(text: Seq<char>) -> Result<Rgba, ConfigFault> {
    match color_of(text) {
        None => Err(ConfigFault::InvalidColor(text)),
        Some(color) => Ok(color),
    }
}

/// The colour that a table holds under a name.
pub open spec fn rgba_entry(value: toml::Value, name: Seq<char>) -> Result<Rgba, ConfigFault> {
    match string_entry(value, name) {
        Err(e) => Err(e),
        Ok(text) => rgba_of_text(text),
    }
}

/// Reads the colour under `name`.
pub fn toml_value_to_rgba(general_val: &toml::Value, name: &str) -> (res: Result<Rgba, ConfigError>)
    ensures
        plain_result(res) == rgba_entry(*general_val, name@),
{
    match toml_value_to_string(general_val, name) {
        Err(e) => Err(e),
        Ok(col_string) => string_to_rgba(col_string.as_str()),
    }
}

/// The text with every occurrence of `from` replaced by `to`. The text is
/// read from the left: where it goes on with `from`, `to` is put and `from`
/// passed over, so that occurrences that overlap count once; elsewhere one
/// character is taken over. An empty `from` occurs nowhere.
pub open spec fn replaced(text: Seq<char>, from: Seq<char>, to: Seq<char>) -> Seq<char>
    decreases text.len(),
{
    if from.len() == 0 || text.len() < from.len() {
        text
    } else if text.subrange(0, from.len() as int) == from {
        to + replaced(text.subrange(from.len() as int, text.len() as int), from, to)
    } else {
        seq![text[0]] + replaced(text.drop_first(), from, to)
    }
}

/// Calls `str::replace` with a pattern that is not empty.
///
/// Trusted: the result is the text with the occurrences of `from`, found
/// from the left and without overlap, replaced by `to`.
#[verifier::external_body]
fn replace_text(text: &str, from: &str, to: &str) -> (out: String)
    requires
        from@.len() > 0,
    ensures
        out@ == replaced(text@, from@, to@),
{
    text.replace(from, to)
}

/// The files that have been tried so far, each under its path: an image with
/// what was loaded from it, a font with whether it could be loaded.
#[derive(Debug)]
pub struct Resources {
    pub images: Vec<(String, Option<Image>)>,
    pub fonts: Vec<(String, bool)>,
}

/// What is known of the image file of this path: nothing while it has not been
/// tried, else what came of the first try.
pub open spec fn image_known(images: Seq<(String, Option<Image>)>, path: Seq<char>) -> Option<
    Option<Image>,
>
    decreases images.len(),
{
    if images.len() == 0 {
        None
    } else if images[0].0@ == path {
        Some(images[0].1)
    } else {
        image_known(images.drop_first(), path)
    }
}

/// What is known of the font file of this path: nothing while it has not been
/// tried, else whether the first try could load it.
pub open spec fn font_known(fonts: Seq<(String, bool)>, path: Seq<char>) -> Option<bool>
    decreases fonts.len(),
{
    if fonts.len() == 0 {
        None
    } else if fonts[0].0@ == path {
        Some(fonts[0].1)
    } else {
        font_known(fonts.drop_first(), path)
    }
}

impl Resources {
    /// No file has been tried.
    pub fn new() -> (resources: Resources)
        ensures
            resources.images@.len() == 0,
            resources.fonts@.len() == 0,
    {
        Resources { images: Vec::new(), fonts: Vec::new() }
    }

    /// Looks an image file up.
    pub fn image(&self, path: &String) -> (known: Option<&Option<Image>>)
        ensures
            match known {
                Some(image) => image_known(self.images@, path@) == Some(*image),
                None => image_known(self.images@, path@) is None,
            },
    {
        let n: usize = self.images.len();
        let mut i: usize = 0;
        assert(self.images@.skip(0) =~= self.images@);
        while i < n
            invariant
                i <= n,
                n == self.images@.len(),
                image_known(self.images@, path@) == image_known(self.images@.skip(i as int), path@),
            decreases n - i,
        {
            proof {
                assert(self.images@.skip(i as int).drop_first() =~= self.images@.skip(i + 1));
            }
            if self.images[i].0 == *path {
                return Some(&self.images[i].1);
            }
            i += 1;
        }
        None
    }

    /// Looks a font file up.
    pub fn font(&self, path: &String) -> (known: Option<bool>)
        ensures
            known == font_known(self.fonts@, path@),
    {
        let n: usize = self.fonts.len();
        let mut i: usize = 0;
        assert(self.fonts@.skip(0) =~= self.fonts@);
        while i < n
            invariant
                i <= n,
                n == self.fonts@.len(),
                font_known(self.fonts@, path@) == font_known(self.fonts@.skip(i as int), path@),
            decreases n - i,
        {
            proof {
                assert(self.fonts@.skip(i as int).drop_first() =~= self.fonts@.skip(i + 1));
            }
            if self.fonts[i].0 == *path {
                return Some(self.fonts[i].1);
            }
            i += 1;
        }
        None
    }
}

/// The path of an image file with the home directory filled in for `~` and for
/// `$HOME`.
pub open spec fn image_path(path: Seq<char>, home: Seq<char>) -> Seq<char> {
    replaced(replaced(path, "~"@, home), "$HOME"@, home)
}

/// The path of a font file with the home directory filled in for `$` and for
/// `~`.
pub open spec fn font_path(path: Seq<char>, home: Seq<char>) -> Seq<char> {
    replaced(replaced(path, "$"@, home), "~"@, home)
}

/// The image that a text stands for: a single pixel for a text that starts with
/// `#` and spells a colour, else the image loaded from the file that the text
/// names.
///
/// A file that has not been tried is asked for, one that could not be loaded is
/// a fault.
pub open spec fn image_of_text(text: Seq<char>, home: Seq<char>, resources: Resources) -> Result<
    Raster,
    ConfigFault,
> {
    if text.len() > 0 && text[0] == '#' {
        match color_of(text) {
            None => Err(ConfigFault::InvalidColor(text)),
            Some(color) => Ok(Raster::filled(1, 1, color)),
        }
    } else {
        match image_known(resources.images@, image_path(text, home)) {
            None => Err(ConfigFault::WantedImage(image_path(text, home))),
            Some(None) => Err(ConfigFault::Unavailable(image_path(text, home))),
            Some(Some(image)) => Ok(image@),
        }
    }
}

/// The image that a table holds under a name.
pub open spec fn image_entry(
    value: toml::Value,
    name: Seq<char>,
    home: Seq<char>,
    resources: Resources,
) -> Result<Raster, ConfigFault> {
    match string_entry(value, name) {
        Err(e) => Err(e),
        Ok(text) => image_of_text(text, home, resources),
    }
}

/// Makes the image that a text stands for: a colour or the path of a file.
pub fn image_from_text(text: &str, home: &str, resources: &Resources) -> (res: Result<
    Image,
    ConfigError,
>)
    ensures
        image_result(res) == image_of_text(text@, home@, *resources),
{
    if text.unicode_len() > 0 && text.get_char(0) == '#' {
        match string_to_rgba(text) {
            Err(e) => Err(e),
            Ok(color) => Ok(Image::filled(1, 1, color)),
        }
    } else {
        proof {
            reveal_strlit("~");
            reveal_strlit("$HOME");
        }
        let with_home = replace_text(text, "~", home);
        let expanded = replace_text(with_home.as_str(), "$HOME", home);
        match resources.image(&expanded) {
            None => Err(ConfigError::WantedImage(expanded)),
            Some(None) => Err(ConfigError::Unavailable(expanded)),
            Some(Some(image)) => Ok(image.clone()),
        }
    }
}

/// Reads the image under `name`.
pub fn toml_value_to_image(
    general_val: &toml::Value,
    name: &str,
    home: &str,
    resources: &Resources,
) -> (res: Result<Image, ConfigError>)
    ensures
        image_result(res) == image_entry(*general_val, name@, home@, *resources),
{
    match toml_value_to_string(general_val, name) {
        Err(e) => Err(e),
        Ok(path) => image_from_text(path.as_str(), home, resources),
    }
}

/// The font file that a text names, once it has been loaded.
///
/// A file that has not been tried is asked for, one that could not be loaded is
/// a fault.
pub open spec fn font_of_text(text: Seq<char>, home: Seq<char>, resources: Resources) -> Result<
    Seq<char>,
    ConfigFault,
> {
    match font_known(resources.fonts@, font_path(text, home)) {
        None => Err(ConfigFault::WantedFont(font_path(text, home))),
        Some(false) => Err(ConfigFault::Unavailable(font_path(text, home))),
        Some(true) => Ok(font_path(text, home)),
    }
}

/// The font file that a table names under a name.
pub open spec fn font_entry(
    value: toml::Value,
    name: Seq<char>,
    home: Seq<char>,
    resources: Resources,
) -> Result<Seq<char>, ConfigFault> {
    match string_entry(value, name) {
        Err(e) => Err(e),
        Ok(text) => font_of_text(text, home, resources),
    }
}

/// Finds the font file that a text names.
pub fn font_from_text(text: &str, home: &str, resources: &Resources) -> (res: Result<
    String,
    ConfigError,
>)
    ensures
        text_result(res) == font_of_text(text@, home@, *resources),
{
    proof {
        reveal_strlit("$");
        reveal_strlit("~");
    }
    let with_home = replace_text(text, "$", home);
    let expanded = replace_text(with_home.as_str(), "~", home);
    match resources.font(&expanded) {
        None => Err(ConfigError::WantedFont(expanded)),
        Some(false) => Err(ConfigError::Unavailable(expanded)),
        Some(true) => Ok(expanded),
    }
}

/// Reads the font under `name`: the path of its file.
pub fn toml_value_to_font(
    general_val: &toml::Value,
    name: &str,
    home: &str,
    resources: &Resources,
) -> (res: Result<String, ConfigError>)
    ensures
        text_result(res) == font_entry(*general_val, name@, home@, *resources),
{
    match toml_value_to_string(general_val, name) {
        Err(e) => Err(e),
        Ok(path) => font_from_text(path.as_str(), home, resources),
    }
}

/// The part of the settings that every block starts from, with images and texts
/// as what they hold.
pub struct Settings {
    pub bg: Raster,
    pub fg: Rgba,
    pub font: Option<Seq<char>>,
    pub font_height: Option<u32>,
    pub resize: bool,
    pub width: u32,
    pub spacing: u32,
    pub interval: u32,
    pub bar_height: u32,
    pub top: bool,
}

impl Config {
    /// The settings without the blocks.
    pub open spec fn settings(self) -> Settings {
        Settings {
            bg: self.bg@,
            fg: self.fg,
            font: match self.font {
                Some(font) => Some(font@),
                None => None,
            },
            font_height: self.font_height,
            resize: self.resize,
            width: self.width,
            spacing: self.spacing,
            interval: self.interval,
            bar_height: self.bar_height,
            top: self.top,
        }
    }
}

impl Clone for Config {
    /// Copies the settings. The blocks are not copied: the copy has none.
    fn clone(&self) -> (config: Config)
        ensures
            config.settings() == self.settings(),
            config.block_count() == 0,
    {
        Config {
            bg: self.bg.clone(),
            fg: self.fg,
            font: match &self.font {
                Some(font) => Some(font.clone()),
                None => None,
            },
            font_height: self.font_height,
            resize: self.resize,
            width: self.width,
            spacing: self.spacing,
            interval: self.interval,
            bar_height: self.bar_height,
            top: self.top,
            left_blocks: Vec::new(),
            center_blocks: Vec::new(),
            right_blocks: Vec::new(),
        }
    }
}

/// Reading the entry failed because a file has to be loaded first.
pub open spec fn asks<T>(entry: Result<T, ConfigFault>) -> bool {
    match entry {
        Ok(_) => false,
        Err(e) => e.is_wanted(),
    }
}

/// The entry where it could be read, else the fallback.
pub open spec fn or_fallback<T>(entry: Result<T, ConfigFault>, fallback: T) -> T {
    match entry {
        Ok(value) => value,
        Err(_) => fallback,
    }
}

/// What a block's table holds under the names of the settings.
#[derive(Debug)]
pub struct BlockEntries {
    pub bg: Result<Image, ConfigError>,
    pub fg: Result<Rgba, ConfigError>,
    pub resize: Result<bool, ConfigError>,
    pub width: Result<u32, ConfigError>,
    pub spacing: Result<u32, ConfigError>,
    pub interval: Result<u32, ConfigError>,
    pub font: Result<String, ConfigError>,
    pub font_height: Result<u32, ConfigError>,
}

/// `BlockEntries` with images and texts as what they hold.
pub struct Entries {
    pub bg: Result<Raster, ConfigFault>,
    pub fg: Result<Rgba, ConfigFault>,
    pub resize: Result<bool, ConfigFault>,
    pub width: Result<u32, ConfigFault>,
    pub spacing: Result<u32, ConfigFault>,
    pub interval: Result<u32, ConfigFault>,
    pub font: Result<Seq<char>, ConfigFault>,
    pub font_height: Result<u32, ConfigFault>,
}

impl View for BlockEntries {
    type V = Entries;

    open spec fn view(&self) -> Entries {
        Entries {
            bg: image_result(self.bg),
            fg: plain_result(self.fg),
            resize: plain_result(self.resize),
            width: plain_result(self.width),
            spacing: plain_result(self.spacing),
            interval: plain_result(self.interval),
            font: text_result(self.font),
            font_height: plain_result(self.font_height),
        }
    }
}

/// What a table holds under the names of the settings.
pub open spec fn entries_of(value: toml::Value, home: Seq<char>, resources: Resources) -> Entries {
    Entries {
        bg: image_entry(value, "bg"@, home, resources),
        fg: rgba_entry(value, "fg"@),
        resize: bool_entry(value, "resize"@),
        width: integer_entry(value, "width"@),
        spacing: integer_entry(value, "spacing"@),
        interval: integer_entry(value, "interval"@),
        font: font_entry(value, "font"@, home, resources),
        font_height: integer_entry(value, "font_height"@),
    }
}

/// The settings of a block: what the block's table gives, and for what it does
/// not give, or gives in a form that cannot be read, the fallback.
///
/// A file that has not been tried yet is asked for, the background's before the
/// font's. A font and a font height must come from one of the two. The height
/// of the bar and its place are the fallback's.
pub open spec fn chosen_settings(entries: Entries, fallback: Settings) -> Result<
    Settings,
    ConfigFault,
> {
    if asks(entries.bg) {
        Err(entries.bg->Err_0)
    } else if asks(entries.font) {
        Err(entries.font->Err_0)
    } else if entries.font is Err && fallback.font is None {
        Err(ConfigFault::FontRequired)
    } else if entries.font_height is Err && fallback.font_height is None {
        Err(ConfigFault::FontHeightRequired)
    } else {
        Ok(
            Settings {
                bg: or_fallback(entries.bg, fallback.bg),
                fg: or_fallback(entries.fg, fallback.fg),
                font: Some(or_fallback(entries.font, fallback.font->Some_0)),
                font_height: Some(or_fallback(entries.font_height, fallback.font_height->Some_0)),
                resize: or_fallback(entries.resize, fallback.resize),
                width: or_fallback(entries.width, fallback.width),
                spacing: or_fallback(entries.spacing, fallback.spacing),
                interval: or_fallback(entries.interval, fallback.interval),
                bar_height: fallback.bar_height,
                top: fallback.top,
            },
        )
    }
}

/// The settings of a block whose table is `value`.
pub open spec fn block_settings(
    value: toml::Value,
    fallback: Settings,
    home: Seq<char>,
    resources: Resources,
) -> Result<Settings, ConfigFault> {
    chosen_settings(entries_of(value, home, resources), fallback)
}

/// What reading the settings gave: settings without blocks, or a fault.
pub open spec fn settings_result(res: Result<Config, ConfigError>) -> Result<Settings, ConfigFault> {
    match res {
        Ok(config) => Ok(config.settings()),
        Err(e) => Err(e@),
    }
}

/// Reads what a table holds under the names of the settings.
pub fn read_entries(general_val: &toml::Value, home: &str, resources: &Resources) -> (entries:
    BlockEntries)
    ensures
        entries@ == entries_of(*general_val, home@, *resources),
{
    BlockEntries {
        bg: toml_value_to_image(general_val, "bg", home, resources),
        fg: toml_value_to_rgba(general_val, "fg"),
        resize: toml_value_to_bool(general_val, "resize"),
        width: toml_value_to_integer(general_val, "width"),
        spacing: toml_value_to_integer(general_val, "spacing"),
        interval: toml_value_to_integer(general_val, "interval"),
        font: toml_value_to_font(general_val, "font", home, resources),
        font_height: toml_value_to_integer(general_val, "font_height"),
    }
}

/// Puts the settings of a block together from what its table holds and the
/// fallback. The result has no blocks.
pub fn choose_settings(entries: BlockEntries, fallback: &Config) -> (res: Result<
    Config,
    ConfigError,
>)
    ensures
        settings_result(res) == chosen_settings(entries@, fallback.settings()),
        res matches Ok(config) ==> config.block_count() == 0,
{
    let bg = match entries.bg {
        Ok(image) => image,
        Err(ConfigError::WantedImage(path)) => {
            return Err(ConfigError::WantedImage(path));
        },
        Err(ConfigError::WantedFont(path)) => {
            return Err(ConfigError::WantedFont(path));
        },
        Err(_) => fallback.bg.clone(),
    };
    let font = match entries.font {
        Ok(path) => path,
        Err(ConfigError::WantedImage(path)) => {
            return Err(ConfigError::WantedImage(path));
        },
        Err(ConfigError::WantedFont(path)) => {
            return Err(ConfigError::WantedFont(path));
        },
        Err(_) => match &fallback.font {
            Some(path) => path.clone(),
            None => {
                return Err(ConfigError::FontRequired);
            },
        },
    };
    let font_height = match entries.font_height {
        Ok(number) => number,
        Err(_) => match fallback.font_height {
            Some(number) => number,
            None => {
                return Err(ConfigError::FontHeightRequired);
            },
        },
    };
    Ok(
        Config {
            bg,
            fg: match entries.fg {
                Ok(color) => color,
                Err(_) => fallback.fg,
            },
            font: Some(font),
            font_height: Some(font_height),
            resize: match entries.resize {
                Ok(flag) => flag,
                Err(_) => fallback.resize,
            },
            width: match entries.width {
                Ok(number) => number,
                Err(_) => fallback.width,
            },
            spacing: match entries.spacing {
                Ok(number) => number,
                Err(_) => fallback.spacing,
            },
            interval: match entries.interval {
                Ok(number) => number,
                Err(_) => fallback.interval,
            },
            bar_height: fallback.bar_height,
            top: fallback.top,
            left_blocks: Vec::new(),
            center_blocks: Vec::new(),
            right_blocks: Vec::new(),
        },
    )
}

/// Reads the settings of a block from its table, with `fallback` for what the
/// table does not give. The result has no blocks.
pub fn block_from_toml(
    general_val: &toml::Value,
    fallback: &Config,
    home: &str,
    resources: &Resources,
) -> (res: Result<Config, ConfigError>)
    ensures
        settings_result(res) == block_settings(*general_val, fallback.settings(), home@, *resources),
        res matches Ok(config) ==> config.block_count() == 0,
{
    choose_settings(read_entries(general_val, home, resources), fallback)
}

/// The pieces that a text falls into when it is cut at every space. A text with
/// `n` spaces has `n + 1` pieces, some of which may be empty.
pub open spec fn pieces(text: Seq<char>) -> Seq<Seq<char>>
    decreases text.len(),
{
    if text.len() == 0 {
        seq![Seq::<char>::empty()]
    } else {
        let before = pieces(text.drop_last());
        if text.last() == ' ' {
            before.push(Seq::empty())
        } else {
            before.update(before.len() - 1, before.last().push(text.last()))
        }
    }
}

/// Cuts a text at every space.
pub fn split_at_spaces(text: &str) -> (parts: Vec<String>)
    ensures
        parts@.len() == pieces(text@).len(),
        forall|i: int| 0 <= i < parts@.len() ==> (#[trigger] parts@[i])@ == pieces(text@)[i],
{
    let mut parts: Vec<String> = Vec::new();
    let mut current = String::new();
    for c in it: text.chars()
        invariant
            it.seq() == text@,
            parts@.len() + 1 == pieces(text@.take(it.index() as int)).len(),
            forall|i: int|
                0 <= i < parts@.len() ==> (#[trigger] parts@[i])@ == pieces(
                    text@.take(it.index() as int),
                )[i],
            current@ == pieces(text@.take(it.index() as int)).last(),
    {
        assert(text@.take(it.index() + 1).drop_last() =~= text@.take(it.index() as int));
        if c == ' ' {
            parts.push(current);
            current = String::new();
        } else {
            push_char(&mut current, c);
        }
    }
    assert(text@.take(text@.len() as int) =~= text@);
    parts.push(current);
    parts
}

/// The white space of Unicode: the characters with the property
/// `White_Space`.
pub open spec fn white_space(c: char) -> bool {
    let code = c as u32;
    ||| 0x09 <= code <= 0x0d
    ||| code == 0x20
    ||| code == 0x85
    ||| code == 0xa0
    ||| code == 0x1680
    ||| 0x2000 <= code <= 0x200a
    ||| code == 0x2028
    ||| code == 0x2029
    ||| code == 0x202f
    ||| code == 0x205f
    ||| code == 0x3000
}

/// Tells whether a character is white space.
pub fn is_white_space(c: char) -> (white: bool)
    ensures
        white == white_space(c),
{
    let code: u32 = c as u32;
    (0x09 <= code && code <= 0x0d) || code == 0x20 || code == 0x85 || code == 0xa0 || code == 0x1680
        || (0x2000 <= code && code <= 0x200a) || code == 0x2028 || code == 0x2029 || code
        == 0x202f || code == 0x205f || code == 0x3000
}

/// A text without the white space at its start.
pub open spec fn trimmed_start(text: Seq<char>) -> Seq<char>
    decreases text.len(),
{
    if text.len() > 0 && white_space(text[0]) {
        trimmed_start(text.drop_first())
    } else {
        text
    }
}

/// A text without the white space at its end.
pub open spec fn trimmed_end(text: Seq<char>) -> Seq<char>
    decreases text.len(),
{
    if text.len() > 0 && white_space(text.last()) {
        trimmed_end(text.drop_last())
    } else {
        text
    }
}

/// A text without the white space at its two ends. What lies between is
/// left as it is.
pub open spec fn trimmed(text: Seq<char>) -> Seq<char> {
    trimmed_end(trimmed_start(text))
}

/// Calls `str::trim`.
///
/// Trusted: the result is the text without the characters at its start and at
/// its end that have the Unicode property `White_Space`.
#[verifier::external_body]
fn trim_text(text: &str) -> (out: &str)
    ensures
        out@ == trimmed(text@),
{
    text.trim()
}

/// A text that neither starts nor ends with white space is its own name: it
/// is looked up as it stands.
pub proof fn lemma_trimmed_name(text: Seq<char>)
    requires
        text.len() > 0,
        !white_space(text[0]),
        !white_space(text.last()),
    ensures
        trimmed(text) == text,
{
}

/// Why the declaration under a name gives no block, or `None` where it gives
/// one: the document must hold a table under the name, the table's settings
/// must be readable, and its `module` must name a module that can make a block
/// of it.
pub open spec fn named_block_fault(
    doc: toml::Value,
    config: Settings,
    name: Seq<char>,
    home: Seq<char>,
    resources: Resources,
) -> Option<ConfigFault> {
    match entry_of(doc, name) {
        None => Some(ConfigFault::Missing(name)),
        Some(table) => match block_settings(table, config, home, resources) {
            Err(e) => Some(e),
            Ok(settings) => match string_entry(table, "module"@) {
                Err(e) => Some(e),
                Ok(module_name) => match module_of(module_name) {
                    None => Some(ConfigFault::UnknownModule(module_name)),
                    Some(module) => block_fault(module, settings, table, home, resources),
                },
            },
        },
    }
}

/// `block` is the block that the declaration under a name gives.
pub open spec fn is_named_block(
    doc: toml::Value,
    config: Settings,
    name: Seq<char>,
    home: Seq<char>,
    resources: Resources,
    block: Block,
) -> bool {
    &&& entry_of(doc, name) matches Some(table)
    &&& block_settings(table, config, home, resources) matches Ok(settings)
    &&& string_entry(table, "module"@) matches Ok(module_name)
    &&& module_of(module_name) matches Some(module)
    &&& block_created(module, settings, table, home, resources, block)
}

/// Makes the block that the document declares under a name.
pub fn block_named(
    config_val: &toml::Value,
    block_name: &str,
    config: &Config,
    home: &str,
    resources: &Resources,
) -> (res: Result<Block, ConfigError>)
    ensures
        match res {
            Ok(block) => {
                &&& named_block_fault(*config_val, config.settings(), block_name@, home@, *resources)
                    is None
                &&& is_named_block(
                    *config_val,
                    config.settings(),
                    block_name@,
                    home@,
                    *resources,
                    block,
                )
            },
            Err(e) => named_block_fault(
                *config_val,
                config.settings(),
                block_name@,
                home@,
                *resources,
            ) == Some(e@),
        },
{
    let block_val = match toml_get(config_val, block_name) {
        Some(table) => table,
        None => {
            return Err(ConfigError::Missing(block_name.to_owned()));
        },
    };
    let block_config = match block_from_toml(block_val, config, home, resources) {
        Ok(block_config) => block_config,
        Err(e) => {
            return Err(e);
        },
    };
    let module_name = match toml_value_to_string(block_val, "module") {
        Ok(module_name) => module_name,
        Err(e) => {
            return Err(e);
        },
    };
    match find_module(module_name.as_str()) {
        None => Err(ConfigError::UnknownModule(module_name)),
        Some(module) => create_block(module, block_config, block_val, home, resources),
    }
}

/// Why a list of names gives no blocks: the fault of the first name that gives
/// no block. A piece that is empty once the white space at its ends is removed
/// is no name.
pub open spec fn blocks_fault(
    doc: toml::Value,
    config: Settings,
    names: Seq<Seq<char>>,
    home: Seq<char>,
    resources: Resources,
) -> Option<ConfigFault>
    decreases names.len(),
{
    if names.len() == 0 {
        None
    } else {
        match blocks_fault(doc, config, names.drop_last(), home, resources) {
            Some(e) => Some(e),
            None => if trimmed(names.last()).len() == 0 {
                None
            } else {
                named_block_fault(doc, config, trimmed(names.last()), home, resources)
            },
        }
    }
}

/// `blocks` are the blocks that a list of names gives, in the order of the
/// names.
pub open spec fn are_named_blocks(
    doc: toml::Value,
    config: Settings,
    names: Seq<Seq<char>>,
    home: Seq<char>,
    resources: Resources,
    blocks: Seq<Block>,
) -> bool
    decreases names.len(),
{
    if names.len() == 0 {
        blocks.len() == 0
    } else if trimmed(names.last()).len() == 0 {
        are_named_blocks(doc, config, names.drop_last(), home, resources, blocks)
    } else {
        &&& blocks.len() > 0
        &&& are_named_blocks(doc, config, names.drop_last(), home, resources, blocks.drop_last())
        &&& is_named_block(doc, config, trimmed(names.last()), home, resources, blocks.last())
    }
}

/// Why a group of the bar cannot be read, or `None` where it can: the bar's
/// table must hold the names of the group's blocks, as one text with spaces
/// between the names, and every name must give a block.
pub open spec fn group_fault(
    general: toml::Value,
    doc: toml::Value,
    key: Seq<char>,
    config: Settings,
    home: Seq<char>,
    resources: Resources,
) -> Option<ConfigFault> {
    match string_entry(general, key) {
        Err(e) => Some(e),
        Ok(text) => blocks_fault(doc, config, pieces(text), home, resources),
    }
}

/// `blocks` are the blocks of a group of the bar.
pub open spec fn is_group(
    general: toml::Value,
    doc: toml::Value,
    key: Seq<char>,
    config: Settings,
    home: Seq<char>,
    resources: Resources,
    blocks: Seq<Block>,
) -> bool {
    &&& string_entry(general, key) matches Ok(text)
    &&& are_named_blocks(doc, config, pieces(text), home, resources, blocks)
}

/// Reads the blocks of one group of the bar: `name` is the key under which the
/// bar's table lists them.
pub fn toml_value_to_blocks(
    general_val: &toml::Value,
    config_val: &toml::Value,
    name: &str,
    config: &Config,
    home: &str,
    resources: &Resources,
) -> (res: Result<Vec<Block>, ConfigError>)
    ensures
        match res {
            Ok(blocks) => {
                &&& group_fault(
                    *general_val,
                    *config_val,
                    name@,
                    config.settings(),
                    home@,
                    *resources,
                ) is None
                &&& is_group(
                    *general_val,
                    *config_val,
                    name@,
                    config.settings(),
                    home@,
                    *resources,
                    blocks@,
                )
            },
            Err(e) => group_fault(
                *general_val,
                *config_val,
                name@,
                config.settings(),
                home@,
                *resources,
            ) == Some(e@),
        },
{
    let blocks_text = match toml_value_to_string(general_val, name) {
        Ok(text) => text,
        Err(e) => {
            return Err(e);
        },
    };
    let names = split_at_spaces(blocks_text.as_str());
    let ghost all = pieces(blocks_text@);
    let mut blocks: Vec<Block> = Vec::new();
    let n: usize = names.len();
    let mut i: usize = 0;
    while i < n
        invariant
            i <= n,
            n == names@.len(),
            all.len() == n,
            all == pieces(blocks_text@),
            string_entry(*general_val, name@) == Ok::<Seq<char>, ConfigFault>(blocks_text@),
            forall|k: int| 0 <= k < n ==> (#[trigger] names@[k])@ == all[k],
            blocks_fault(*config_val, config.settings(), all.take(i as int), home@, *resources)
                is None,
            are_named_blocks(
                *config_val,
                config.settings(),
                all.take(i as int),
                home@,
                *resources,
                blocks@,
            ),
        decreases n - i,
    {
        proof {
            assert(all.take(i + 1).drop_last() =~= all.take(i as int));
        }
        let block_name = trim_text(names[i].as_str());
        let ghost before = blocks@;
        if !block_name.is_empty() {
            match block_named(config_val, block_name, config, home, resources) {
                Ok(block) => {
                    blocks.push(block);
                    assert(blocks@.drop_last() =~= before);
                },
                Err(e) => {
                    proof {
                        lemma_blocks_fault_stays(
                            *config_val,
                            config.settings(),
                            all,
                            i + 1,
                            home@,
                            *resources,
                        );
                    }
                    return Err(e);
                },
            }
        }
        i += 1;
    }
    assert(all.take(n as int) =~= all);
    Ok(blocks)
}

/// A fault among the first names of a list is the fault of the whole list.
proof fn lemma_blocks_fault_stays(
    doc: toml::Value,
    config: Settings,
    names: Seq<Seq<char>>,
    count: int,
    home: Seq<char>,
    resources: Resources,
)
    requires
        0 <= count <= names.len(),
        blocks_fault(doc, config, names.take(count), home, resources) is Some,
    ensures
        blocks_fault(doc, config, names, home, resources) == blocks_fault(
            doc,
            config,
            names.take(count),
            home,
            resources,
        ),
    decreases names.len() - count,
{
    if count < names.len() {
        assert(names.take(count + 1).drop_last() =~= names.take(count));
        lemma_blocks_fault_stays(doc, config, names, count + 1, home, resources);
    } else {
        assert(names.take(count) =~= names);
    }
}

/// The settings that a bar starts from where its table says nothing: white on a
/// black pixel, no font, and the bar at the top.
pub open spec fn default_settings() -> Settings {
    Settings {
        bg: Raster::filled(1, 1, Rgba { r: 0, g: 0, b: 0, a: 255 }),
        fg: Rgba { r: 255, g: 255, b: 255, a: 255 },
        font: None,
        font_height: None,
        resize: false,
        width: 0,
        spacing: 0,
        interval: 0,
        bar_height: 0,
        top: true,
    }
}

/// The settings of the bar: those of its table `general`, which must give the
/// bar's height besides.
pub open spec fn bar_settings(doc: toml::Value, home: Seq<char>, resources: Resources) -> Result<
    Settings,
    ConfigFault,
> {
    match entry_of(doc, "general"@) {
        None => Err(ConfigFault::Missing("general"@)),
        Some(general) => match block_settings(general, default_settings(), home, resources) {
            Err(e) => Err(e),
            Ok(settings) => match integer_entry(general, "bar_height"@) {
                Err(e) => Err(e),
                Ok(bar_height) => Ok(
                    Settings {
                        bar_height,
                        top: or_fallback(bool_entry(general, "top"@), true),
                        ..settings
                    },
                ),
            },
        },
    }
}

/// Why a document gives no bar, or `None` where it gives one: the first fault
/// in the bar's settings, its left group, its centre group and its right group,
/// in that order.
pub open spec fn document_fault(doc: toml::Value, home: Seq<char>, resources: Resources) -> Option<
    ConfigFault,
> {
    match bar_settings(doc, home, resources) {
        Err(e) => Some(e),
        Ok(settings) => {
            let general = entry_of(doc, "general"@)->Some_0;
            let left = group_fault(general, doc, "left_blocks"@, settings, home, resources);
            let center = group_fault(general, doc, "center_blocks"@, settings, home, resources);
            let right = group_fault(general, doc, "right_blocks"@, settings, home, resources);
            if left is Some {
                left
            } else if center is Some {
                center
            } else {
                right
            }
        },
    }
}

/// `config` is the bar that a document gives.
pub open spec fn is_bar(
    doc: toml::Value,
    home: Seq<char>,
    resources: Resources,
    config: Config,
) -> bool {
    let general = entry_of(doc, "general"@)->Some_0;
    let settings = config.settings();
    &&& bar_settings(doc, home, resources) == Ok::<Settings, ConfigFault>(settings)
    &&& is_group(general, doc, "left_blocks"@, settings, home, resources, config.left_blocks@)
    &&& is_group(general, doc, "center_blocks"@, settings, home, resources, config.center_blocks@)
    &&& is_group(general, doc, "right_blocks"@, settings, home, resources, config.right_blocks@)
}

/// `res` is what reading a document gives: its bar, or its first fault.
pub open spec fn is_reading(
    doc: toml::Value,
    home: Seq<char>,
    resources: Resources,
    res: Result<Config, ConfigError>,
) -> bool {
    match res {
        Ok(config) => document_fault(doc, home, resources) is None && is_bar(
            doc,
            home,
            resources,
            config,
        ),
        Err(e) => document_fault(doc, home, resources) == Some(e@),
    }
}

/// Reads the bar from a document: the settings from its table `general`, and
/// the blocks that the table lists under `left_blocks`, `center_blocks` and
/// `right_blocks` from the tables of their names.
pub fn parse_settings(config_val: &toml::Value, home: &str, resources: &Resources) -> (res: Result<
    Config,
    ConfigError,
>)
    ensures
        is_reading(*config_val, home@, *resources, res),
{
    let general = match toml_get(config_val, "general") {
        Some(general) => general,
        None => {
            return Err(ConfigError::Missing("general".to_owned()));
        },
    };
    let defaults = Config {
        bg: Image::filled(1, 1, Rgba { r: 0, g: 0, b: 0, a: 255 }),
        fg: Rgba { r: 255, g: 255, b: 255, a: 255 },
        font: None,
        font_height: None,
        resize: false,
        width: 0,
        spacing: 0,
        interval: 0,
        bar_height: 0,
        top: true,
        left_blocks: Vec::new(),
        center_blocks: Vec::new(),
        right_blocks: Vec::new(),
    };
    let mut config = match block_from_toml(general, &defaults, home, resources) {
        Ok(config) => config,
        Err(e) => {
            return Err(e);
        },
    };
    config.bar_height = match toml_value_to_integer(general, "bar_height") {
        Ok(bar_height) => bar_height,
        Err(e) => {
            return Err(e);
        },
    };
    config.top = match toml_value_to_bool(general, "top") {
        Ok(top) => top,
        Err(_) => true,
    };
    let left = match toml_value_to_blocks(
        general,
        config_val,
        "left_blocks",
        &config,
        home,
        resources,
    ) {
        Ok(blocks) => blocks,
        Err(e) => {
            return Err(e);
        },
    };
    let center = match toml_value_to_blocks(
        general,
        config_val,
        "center_blocks",
        &config,
        home,
        resources,
    ) {
        Ok(blocks) => blocks,
        Err(e) => {
            return Err(e);
        },
    };
    let right = match toml_value_to_blocks(
        general,
        config_val,
        "right_blocks",
        &config,
        home,
        resources,
    ) {
        Ok(blocks) => blocks,
        Err(e) => {
            return Err(e);
        },
    };
    config.left_blocks = left;
    config.center_blocks = center;
    config.right_blocks = right;
    Ok(config)
}

/// The document that a text spells: what parsing it as a `toml::Table` gives,
/// and `None` where it is no TOML.
pub uninterp spec fn document_of(text: Seq<char>) -> Option<toml::Value>;

/// Calls the `FromStr` implementation of `toml::Table` and takes the table as a
/// `toml::Value`.
///
/// Trusted: the result depends on the text alone.
#[verifier::external_body]
fn parse_document(text: &str) -> (doc: Option<toml::Value>)
    ensures
        doc == document_of(text@),
{
    text.parse::<toml::Table>().ok().map(toml::Value::Table)
}

/// The text of the settings as it is parsed: with every backslash doubled, so
/// that none of them escapes anything.
pub open spec fn escaped(text: Seq<char>) -> Seq<char> {
    replaced(text, "\\"@, "\\\\"@)
}

/// Reads the bar from the text of its settings.
///
/// `home` is the user's home directory, and `resources` holds the files that
/// have been tried so far. Where a file is named that has not been tried, the
/// answer is the fault that asks for it: try it, add what came of it to
/// `resources`, and read again.
pub fn read_config(text: &str, home: &str, resources: &Resources) -> (res: Result<
    Config,
    ConfigError,
>)
    ensures
        match document_of(escaped(text@)) {
            Some(doc) => is_reading(doc, home@, *resources, res),
            None => res matches Err(e) && e@ == ConfigFault::Unparsable,
        },
{
    proof {
        reveal_strlit("\\");
    }
    let config_buf = replace_text(text, "\\", "\\\\");
    match parse_document(config_buf.as_str()) {
        Some(config_val) => parse_settings(&config_val, home, resources),
        None => Err(ConfigError::Unparsable),
    }
}

} // verus!
