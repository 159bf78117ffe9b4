use diskord::path::FsPath;
use diskord::theme::{theme_colors_file, OmarchyTheme, Rgb, TomlColors};

fn no_colors() -> TomlColors {
    TomlColors {
        accent: None,
        cursor: None,
        foreground: None,
        background: None,
        selection_foreground: None,
        selection_background: None,
        color0: None,
        color1: None,
        color2: None,
        color3: None,
        color4: None,
        color5: None,
        color6: None,
        color7: None,
        color8: None,
        color9: None,
        color10: None,
        color11: None,
        color12: None,
        color13: None,
        color14: None,
        color15: None,
    }
}

fn reference_parse_hex(hex: &str) -> Option<Rgb> {
    let hex = hex.trim_start_matches('#');
    if hex.len() != 6 {
        return None;
    }
    let r = u8::from_str_radix(&hex[0..2], 16).ok()?;
    let g = u8::from_str_radix(&hex[2..4], 16).ok()?;
    let b = u8::from_str_radix(&hex[4..6], 16).ok()?;
    Some(Rgb { r, g, b })
}

#[test]
fn parse_hex_reads_three_pairs() {
    assert_eq!(OmarchyTheme::parse_hex("#7aa2f7"), Some(Rgb { r: 122, g: 162, b: 247 }));
    assert_eq!(OmarchyTheme::parse_hex("7AA2F7"), Some(Rgb { r: 122, g: 162, b: 247 }));
    assert_eq!(OmarchyTheme::parse_hex("#000000"), Some(Rgb { r: 0, g: 0, b: 0 }));
    assert_eq!(OmarchyTheme::parse_hex("#ffffff"), Some(Rgb { r: 255, g: 255, b: 255 }));
    assert_eq!(OmarchyTheme::parse_hex("###0a0B0c"), Some(Rgb { r: 10, g: 11, b: 12 }));
    assert_eq!(OmarchyTheme::parse_hex("+1+2+f"), Some(Rgb { r: 1, g: 2, b: 15 }));
}

#[test]
fn parse_hex_rejects_other_texts() {
    for text in [
        "", "#", "#fff", "#fffffff", "#12345", "#gggggg", "#12345g", "# 12345", "12 456", "#-1-2-3", "#1+2+3+",
        "1234567", "#ééé", "#aé234", "日本", "#12345\u{ff11}", "0x1234",
    ] {
        assert_eq!(OmarchyTheme::parse_hex(text), None, "for {:?}", text);
    }
}

#[test]
fn parse_hex_agrees_with_the_standard_parser_on_ascii() {
    let pieces = ["", "#", "0", "9", "a", "F", "g", "+", "-", " ", "1f", "zz", "abc"];
    for a in pieces {
        for b in pieces {
            for c in pieces {
                for d in pieces {
                    let text = format!("{}{}{}{}", a, b, c, d);
                    assert_eq!(OmarchyTheme::parse_hex(&text), reference_parse_hex(&text), "for {:?}", text);
                }
            }
        }
    }
}

#[test]
fn default_theme_is_the_built_in_palette() {
    let theme = OmarchyTheme::default();
    assert_eq!(theme.accent, Rgb { r: 122, g: 162, b: 247 });
    assert_eq!(theme.cursor, Rgb { r: 192, g: 202, b: 245 });
    assert_eq!(theme.foreground, Rgb { r: 169, g: 177, b: 214 });
    assert_eq!(theme.background, Rgb { r: 26, g: 27, b: 38 });
    assert_eq!(theme.selection_foreground, Rgb { r: 192, g: 202, b: 245 });
    assert_eq!(theme.selection_background, Rgb { r: 122, g: 162, b: 247 });
    assert_eq!(theme.color0, Rgb { r: 50, g: 52, b: 74 });
    assert_eq!(theme.color1, Rgb { r: 247, g: 118, b: 142 });
    assert_eq!(theme.color2, Rgb { r: 158, g: 206, b: 106 });
    assert_eq!(theme.color3, Rgb { r: 224, g: 175, b: 104 });
    assert_eq!(theme.color4, Rgb { r: 122, g: 162, b: 247 });
    assert_eq!(theme.color5, Rgb { r: 173, g: 142, b: 230 });
    assert_eq!(theme.color6, Rgb { r: 68, g: 157, b: 171 });
    assert_eq!(theme.color7, Rgb { r: 120, g: 124, b: 153 });
    assert_eq!(theme.color8, Rgb { r: 68, g: 75, b: 106 });
    assert_eq!(theme.color9, Rgb { r: 255, g: 122, b: 147 });
    assert_eq!(theme.color10, Rgb { r: 185, g: 242, b: 124 });
    assert_eq!(theme.color11, Rgb { r: 255, g: 158, b: 100 });
    assert_eq!(theme.color12, Rgb { r: 125, g: 166, b: 255 });
    assert_eq!(theme.color13, Rgb { r: 187, g: 154, b: 247 });
    assert_eq!(theme.color14, Rgb { r: 13, g: 185, b: 215 });
    assert_eq!(theme.color15, Rgb { r: 172, g: 176, b: 208 });
}

#[test]
fn load_without_a_file_gives_the_built_in_palette() {
    assert_eq!(OmarchyTheme::load(None), OmarchyTheme::default());
    assert_eq!(OmarchyTheme::load(Some(no_colors())), OmarchyTheme::default());
}

#[test]
fn load_takes_the_colors_that_are_named_well() {
    let mut colors = no_colors();
    colors.accent = Some("#010203".to_string());
    colors.background = Some("not a color".to_string());
    colors.color7 = Some("0a0b0c".to_string());
    colors.color15 = Some("#FFFFFF".to_string());
    colors.cursor = Some("".to_string());
    let theme = OmarchyTheme::load(Some(colors));
    let mut expected = OmarchyTheme::default();
    expected.accent = Rgb { r: 1, g: 2, b: 3 };
    expected.color7 = Rgb { r: 10, g: 11, b: 12 };
    expected.color15 = Rgb { r: 255, g: 255, b: 255 };
    assert_eq!(theme, expected);
}

#[test]
fn load_takes_every_color_of_the_file() {
    let hex = |n: u8| Some(format!("#{:02x}{:02x}{:02x}", n, n + 1, n + 2));
    let colors = TomlColors {
        accent: hex(1),
        cursor: hex(2),
        foreground: hex(3),
        background: hex(4),
        selection_foreground: hex(5),
        selection_background: hex(6),
        color0: hex(10),
        color1: hex(11),
        color2: hex(12),
        color3: hex(13),
        color4: hex(14),
        color5: hex(15),
        color6: hex(16),
        color7: hex(17),
        color8: hex(18),
        color9: hex(19),
        color10: hex(20),
        color11: hex(21),
        color12: hex(22),
        color13: hex(23),
        color14: hex(24),
        color15: hex(25),
    };
    let theme = OmarchyTheme::load(Some(colors));
    let rgb = |n: u8| Rgb { r: n, g: n + 1, b: n + 2 };
    assert_eq!(theme.accent, rgb(1));
    assert_eq!(theme.cursor, rgb(2));
    assert_eq!(theme.foreground, rgb(3));
    assert_eq!(theme.background, rgb(4));
    assert_eq!(theme.selection_foreground, rgb(5));
    assert_eq!(theme.selection_background, rgb(6));
    assert_eq!(theme.color0, rgb(10));
    assert_eq!(theme.color1, rgb(11));
    assert_eq!(theme.color2, rgb(12));
    assert_eq!(theme.color3, rgb(13));
    assert_eq!(theme.color4, rgb(14));
    assert_eq!(theme.color5, rgb(15));
    assert_eq!(theme.color6, rgb(16));
    assert_eq!(theme.color7, rgb(17));
    assert_eq!(theme.color8, rgb(18));
    assert_eq!(theme.color9, rgb(19));
    assert_eq!(theme.color10, rgb(20));
    assert_eq!(theme.color11, rgb(21));
    assert_eq!(theme.color12, rgb(22));
    assert_eq!(theme.color13, rgb(23));
    assert_eq!(theme.color14, rgb(24));
    assert_eq!(theme.color15, rgb(25));
}

#[test]
fn apply_if_some_keeps_the_color_unless_one_is_named() {
    let mut color = Rgb { r: 1, g: 2, b: 3 };
    OmarchyTheme::apply_if_some(&mut color, None);
    assert_eq!(color, Rgb { r: 1, g: 2, b: 3 });
    OmarchyTheme::apply_if_some(&mut color, Some("#zzzzzz".to_string()));
    assert_eq!(color, Rgb { r: 1, g: 2, b: 3 });
    OmarchyTheme::apply_if_some(&mut color, Some("#102030".to_string()));
    assert_eq!(color, Rgb { r: 16, g: 32, b: 48 });
}

#[test]
fn colors_file_lies_in_the_config_of_the_home() {
    let file = OmarchyTheme::colors_file(&FsPath::parse("/home/ann"));
    assert_eq!(file.display(), "/home/ann/.config/omarchy/current/theme/colors.toml");
}

#[test]
fn colors_file_for_needs_a_home() {
    assert_eq!(OmarchyTheme::colors_file_for(None), None);
    assert_eq!(
        OmarchyTheme::colors_file_for(Some(FsPath::parse("/home/ann"))).unwrap().display(),
        "/home/ann/.config/omarchy/current/theme/colors.toml"
    );
    assert_eq!(
        OmarchyTheme::colors_file_for(Some(FsPath::parse("~"))).unwrap().display(),
        "~/.config/omarchy/current/theme/colors.toml"
    );
}

#[test]
fn theme_colors_file_lies_in_the_home_that_is_found() {
    let expected = match dirs::home_dir() {
        Some(dir) => Some(OmarchyTheme::colors_file(&FsPath::parse(&dir.to_string_lossy()))),
        None => None,
    };
    assert_eq!(theme_colors_file(), expected);
}
