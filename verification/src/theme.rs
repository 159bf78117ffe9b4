//! The colours of the dashboard: a built-in palette, and the palette of
//! the desktop theme where it names colours of its own.

use crate::path::{FsPath, PathModel};
use crate::text::text_of;
use vstd::prelude::*;
use vstd::string::*;

verus! {

/// A colour as red, green and blue.
#[derive(Debug, Clone, Copy, PartialEq, Eq, Structural)]
pub struct Rgb {
    pub r: u8,
    pub g: u8,
    pub b: u8,
}

/// The value of a hexadecimal digit, in either case.
pub open spec fn hex_digit(c: char) -> Option<u8> {
    if '0' <= c && c <= '9' {
        Some((c as u32 - 48) as u8)
    } else if 'a' <= c && c <= 'f' {
        Some((c as u32 - 87) as u8)
    } else if 'A' <= c && c <= 'F' {
        Some((c as u32 - 55) as u8)
    } else {
        None
    }
}

/// The number that two characters write in hexadecimal: two digits, or a
/// `+` and one digit.
pub open spec fn hex_pair(first: char, second: char) -> Option<u8> {
    match hex_digit(second) {
        Some(low) => if first == '+' {
            Some(low)
        } else {
            match hex_digit(first) {
                Some(high) => Some((16 * high + low) as u8),
                None => None,
            }
        },
        None => None,
    }
}

/// The text without the `#` characters at its start.
pub open spec fn strip_hashes(text: Seq<char>) -> Seq<char>
    decreases text.len(),
{
    if text.len() > 0 && text[0] == '#' {
        strip_hashes(text.drop_first())
    } else {
        text
    }
}

/// The colour that a text names: after any `#` characters, three pairs of
/// hexadecimal characters for red, green and blue, and nothing else.
pub open spec fn hex_color(text: Seq<char>) -> Option<Rgb> {
    let digits = strip_hashes(text);
    if digits.len() != 6 {
        None
    } else {
        match (hex_pair(digits[0], digits[1]), hex_pair(digits[2], digits[3]), hex_pair(digits[4], digits[5])) {
            (Some(r), Some(g), Some(b)) => Some(Rgb { r, g, b }),
            _ => None,
        }
    }
}

/// The colour to use where the theme may name one: the colour that the
/// theme names, or else the colour in use.
pub open spec fn chosen(current: Rgb, named: Option<Seq<char>>) -> Rgb {
    match named {
        Some(text) => match hex_color(text) {
            Some(color) => color,
            None => current,
        },
        None => current,
    }
}

fn hex_digit_of(c: char) -> (value: Option<u8>)
    ensures
        value == hex_digit(c),
{
    if c >= '0' && c <= '9' {
        Some((c as u32 - 48) as u8)
    } else if c >= 'a' && c <= 'f' {
        Some((c as u32 - 87) as u8)
    } else if c >= 'A' && c <= 'F' {
        Some((c as u32 - 55) as u8)
    } else {
        None
    }
}

fn hex_pair_of(first: char, second: char) -> (value: Option<u8>)
    ensures
        value == hex_pair(first, second),
{
    match hex_digit_of(second) {
        Some(low) => {
            if first == '+' {
                Some(low)
            } else {
                match hex_digit_of(first) {
                    Some(high) => Some(16 * high + low),
                    None => None,
                }
            }
        },
        None => None,
    }
}

/// The colours that a theme file may name, each as text.
#[derive(Debug, PartialEq, Eq)]
pub struct TomlColors {
    pub accent: Option<String>,
    pub cursor: Option<String>,
    pub foreground: Option<String>,
    pub background: Option<String>,
    pub selection_foreground: Option<String>,
    pub selection_background: Option<String>,
    pub color0: Option<String>,
    pub color1: Option<String>,
    pub color2: Option<String>,
    pub color3: Option<String>,
    pub color4: Option<String>,
    pub color5: Option<String>,
    pub color6: Option<String>,
    pub color7: Option<String>,
    pub color8: Option<String>,
    pub color9: Option<String>,
    pub color10: Option<String>,
    pub color11: Option<String>,
    pub color12: Option<String>,
    pub color13: Option<String>,
    pub color14: Option<String>,
    pub color15: Option<String>,
}

/// The palette of the dashboard.
#[derive(Debug, Clone, Copy, PartialEq, Eq, Structural)]
pub struct OmarchyTheme {
    pub accent: Rgb,
    pub cursor: Rgb,
    pub foreground: Rgb,
    pub background: Rgb,
    pub selection_foreground: Rgb,
    pub selection_background: Rgb,
    pub color0: Rgb,
    pub color1: Rgb,
    pub color2: Rgb,
    pub color3: Rgb,
    pub color4: Rgb,
    pub color5: Rgb,
    pub color6: Rgb,
    pub color7: Rgb,
    pub color8: Rgb,
    pub color9: Rgb,
    pub color10: Rgb,
    pub color11: Rgb,
    pub color12: Rgb,
    pub color13: Rgb,
    pub color14: Rgb,
    pub color15: Rgb,
}

/// The built-in palette.
pub open spec fn default_theme() -> OmarchyTheme {
    OmarchyTheme {
        accent: Rgb { r: 122, g: 162, b: 247 },
        cursor: Rgb { r: 192, g: 202, b: 245 },
        foreground: Rgb { r: 169, g: 177, b: 214 },
        background: Rgb { r: 26, g: 27, b: 38 },
        selection_foreground: Rgb { r: 192, g: 202, b: 245 },
        selection_background: Rgb { r: 122, g: 162, b: 247 },
        color0: Rgb { r: 50, g: 52, b: 74 },
        color1: Rgb { r: 247, g: 118, b: 142 },
        color2: Rgb { r: 158, g: 206, b: 106 },
        color3: Rgb { r: 224, g: 175, b: 104 },
        color4: Rgb { r: 122, g: 162, b: 247 },
        color5: Rgb { r: 173, g: 142, b: 230 },
        color6: Rgb { r: 68, g: 157, b: 171 },
        color7: Rgb { r: 120, g: 124, b: 153 },
        color8: Rgb { r: 68, g: 75, b: 106 },
        color9: Rgb { r: 255, g: 122, b: 147 },
        color10: Rgb { r: 185, g: 242, b: 124 },
        color11: Rgb { r: 255, g: 158, b: 100 },
        color12: Rgb { r: 125, g: 166, b: 255 },
        color13: Rgb { r: 187, g: 154, b: 247 },
        color14: Rgb { r: 13, g: 185, b: 215 },
        color15: Rgb { r: 172, g: 176, b: 208 },
    }
}

/// The palette with each colour that the theme file names well put in
/// place of the one in use.
pub open spec fn themed(current: OmarchyTheme, colors: TomlColors) -> OmarchyTheme {
    OmarchyTheme {
        accent: chosen(current.accent, text_of(colors.accent)),
        cursor: chosen(current.cursor, text_of(colors.cursor)),
        foreground: chosen(current.foreground, text_of(colors.foreground)),
        background: chosen(current.background, text_of(colors.background)),
        selection_foreground: chosen(current.selection_foreground, text_of(colors.selection_foreground)),
        selection_background: chosen(current.selection_background, text_of(colors.selection_background)),
        color0: chosen(current.color0, text_of(colors.color0)),
        color1: chosen(current.color1, text_of(colors.color1)),
        color2: chosen(current.color2, text_of(colors.color2)),
        color3: chosen(current.color3, text_of(colors.color3)),
        color4: chosen(current.color4, text_of(colors.color4)),
        color5: chosen(current.color5, text_of(colors.color5)),
        color6: chosen(current.color6, text_of(colors.color6)),
        color7: chosen(current.color7, text_of(colors.color7)),
        color8: chosen(current.color8, text_of(colors.color8)),
        color9: chosen(current.color9, text_of(colors.color9)),
        color10: chosen(current.color10, text_of(colors.color10)),
        color11: chosen(current.color11, text_of(colors.color11)),
        color12: chosen(current.color12, text_of(colors.color12)),
        color13: chosen(current.color13, text_of(colors.color13)),
        color14: chosen(current.color14, text_of(colors.color14)),
        color15: chosen(current.color15, text_of(colors.color15)),
    }
}

impl Default for OmarchyTheme {
    fn default() -> (theme: OmarchyTheme)
        ensures
            theme == default_theme(),
    {
        OmarchyTheme {
            accent: Rgb { r: 122, g: 162, b: 247 },
            cursor: Rgb { r: 192, g: 202, b: 245 },
            foreground: Rgb { r: 169, g: 177, b: 214 },
            background: Rgb { r: 26, g: 27, b: 38 },
            selection_foreground: Rgb { r: 192, g: 202, b: 245 },
            selection_background: Rgb { r: 122, g: 162, b: 247 },
            color0: Rgb { r: 50, g: 52, b: 74 },
            color1: Rgb { r: 247, g: 118, b: 142 },
            color2: Rgb { r: 158, g: 206, b: 106 },
            color3: Rgb { r: 224, g: 175, b: 104 },
            color4: Rgb { r: 122, g: 162, b: 247 },
            color5: Rgb { r: 173, g: 142, b: 230 },
            color6: Rgb { r: 68, g: 157, b: 171 },
            color7: Rgb { r: 120, g: 124, b: 153 },
            color8: Rgb { r: 68, g: 75, b: 106 },
            color9: Rgb { r: 255, g: 122, b: 147 },
            color10: Rgb { r: 185, g: 242, b: 124 },
            color11: Rgb { r: 255, g: 158, b: 100 },
            color12: Rgb { r: 125, g: 166, b: 255 },
            color13: Rgb { r: 187, g: 154, b: 247 },
            color14: Rgb { r: 13, g: 185, b: 215 },
            color15: Rgb { r: 172, g: 176, b: 208 },
        }
    }
}

impl OmarchyTheme {
    /// The file in which the desktop theme names its colours:
    /// `.config/omarchy/current/theme/colors.toml` in the user's home
    /// directory. Without a home directory there is no such file.
    pub open spec fn colors_file_in(home: PathModel) -> PathModel {
        home.join(".config"@).join("omarchy"@).join("current"@).join("theme"@).join("colors.toml"@)
    }

    /// The file in which the desktop theme names its colours.
    pub fn colors_file(home: &FsPath) -> (file: FsPath)
        ensures
            file@ == Self::colors_file_in(home@),
    {
        home.join(".config").join("omarchy").join("current").join("theme").join("colors.toml")
    }

    /// The file in which the desktop theme names its colours, for a home
    /// directory that may be unknown: the file in that directory, and no
    /// file without one.
    pub fn colors_file_for(home: Option<FsPath>) -> (file: Option<FsPath>)
        ensures
            match home {
                Some(dir) => file.is_some() && file.unwrap()@ == Self::colors_file_in(dir@),
                None => file.is_none(),
            },
    {
        match home {
            Some(dir) => Some(Self::colors_file(&dir)),
            None => None,
        }
    }

    /// The palette to use: the built-in one, with the colours of the theme
    /// file put in where the file could be read and names them well.
    pub fn load(colors: Option<TomlColors>) -> (theme: OmarchyTheme)
        ensures
            theme == match colors {
                Some(named) => themed(default_theme(), named),
                None => default_theme(),
            },
    {
        let mut theme = OmarchyTheme::default();
        match colors {
            Some(named) => {
                Self::apply_if_some(&mut theme.accent, named.accent);
                Self::apply_if_some(&mut theme.cursor, named.cursor);
                Self::apply_if_some(&mut theme.foreground, named.foreground);
                Self::apply_if_some(&mut theme.background, named.background);
                Self::apply_if_some(&mut theme.selection_foreground, named.selection_foreground);
                Self::apply_if_some(&mut theme.selection_background, named.selection_background);
                Self::apply_if_some(&mut theme.color0, named.color0);
                Self::apply_if_some(&mut theme.color1, named.color1);
                Self::apply_if_some(&mut theme.color2, named.color2);
                Self::apply_if_some(&mut theme.color3, named.color3);
                Self::apply_if_some(&mut theme.color4, named.color4);
                Self::apply_if_some(&mut theme.color5, named.color5);
                Self::apply_if_some(&mut theme.color6, named.color6);
                Self::apply_if_some(&mut theme.color7, named.color7);
                Self::apply_if_some(&mut theme.color8, named.color8);
                Self::apply_if_some(&mut theme.color9, named.color9);
                Self::apply_if_some(&mut theme.color10, named.color10);
                Self::apply_if_some(&mut theme.color11, named.color11);
                Self::apply_if_some(&mut theme.color12, named.color12);
                Self::apply_if_some(&mut theme.color13, named.color13);
                Self::apply_if_some(&mut theme.color14, named.color14);
                Self::apply_if_some(&mut theme.color15, named.color15);
            },
            None => {},
        }
        theme
    }

    /// Puts the colour that `hex` names in place of `color`, if it names
    /// one.
    pub fn apply_if_some(color: &mut Rgb, hex: Option<String>)
        ensures
            *final(color) == chosen(*old(color), text_of(hex)),
    {
        match hex {
            Some(text) => {
                match Self::parse_hex(text.as_str()) {
                    Some(parsed) => {
                        *color = parsed;
                    },
                    None => {},
                }
            },
            None => {},
        }
    }

    /// Reads a colour from its hexadecimal text.
    pub fn parse_hex(hex: &str) -> (color: Option<Rgb>)
        ensures
            color == hex_color(hex@),
    {
        let n = hex.unicode_len();
        let mut start: usize = 0;
        assert(hex@.skip(0) =~= hex@);
        while start < n && hex.get_char(start) == '#'
            invariant
                n == hex@.len(),
                start <= n,
                strip_hashes(hex@) == strip_hashes(hex@.skip(start as int)),
            decreases n - start,
        {
            proof {
                let rest = hex@.skip(start as int);
                assert(rest[0] == hex@[start as int]);
                assert(rest.drop_first() =~= hex@.skip(start + 1));
            }
            start += 1;
        }
        let ghost digits = hex@.skip(start as int);
        proof {
            if start < n {
                assert(digits[0] == hex@[start as int]);
            }
            assert(strip_hashes(digits) == digits);
        }
        if n - start != 6 {
            return None;
        }
        proof {
            assert forall|i: int| 0 <= i < 6 implies digits[i] == hex@[start + i] by {}
        }
        let r = hex_pair_of(hex.get_char(start), hex.get_char(start + 1));
        let g = hex_pair_of(hex.get_char(start + 2), hex.get_char(start + 3));
        let b = hex_pair_of(hex.get_char(start + 4), hex.get_char(start + 5));
        match (r, g, b) {
            (Some(r), Some(g), Some(b)) => Some(Rgb { r, g, b }),
            _ => None,
        }
    }
}

/// The file in which the desktop theme names its colours, in the home
/// directory of the user. `None` when the home directory cannot be
/// determined.
pub fn theme_colors_file() -> (file: Option<FsPath>)
    ensures
        file.is_some() ==> exists|home: PathModel| file.unwrap()@ == OmarchyTheme::colors_file_in(home),
{
    OmarchyTheme::colors_file_for(crate::platform::home_dir())
}

} // verus!
