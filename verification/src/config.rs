//! Configuration values of the terminal that need no file or environment:
//! theme names, color schemes and hex colors, keybindings, security
//! settings, and the checks a configuration must pass.

use vstd::prelude::*;
use vstd::string::*;

use crate::text::decimal;

verus! {

/// Lowercase mapping of a string (`str::to_lowercase`: the Unicode
/// `Lowercase` mapping). Its value is named, not spelled out.
pub uninterp spec fn lowercase(s: Seq<char>) -> Seq<char>;

/// `str::to_lowercase`.
#[verifier::external_body]
pub(crate) fn str_to_lowercase(s: &str) -> (res: String)
    ensures
        res@ == lowercase(s@),
{
    s.to_lowercase()
}

/// Available theme names.
#[derive(Debug, Clone, Copy, PartialEq, Eq, Structural)]
pub enum ThemeName {
    /// Soft pink theme (default)
    Mochi,
    Dark,
    Light,
    SolarizedDark,
    SolarizedLight,
    Dracula,
    Nord,
    /// Uses the configured custom colors
    Custom,
}

impl Default for ThemeName {
    fn default() -> (res: Self)
        ensures
            res == ThemeName::Mochi,
    {
        ThemeName::Mochi
    }
}

/// The theme a lowercase name stands for.
pub open spec fn theme_named(name: Seq<char>) -> Option<ThemeName> {
    if name == "mochi"@ {
        Some(ThemeName::Mochi)
    } else if name == "dark"@ {
        Some(ThemeName::Dark)
    } else if name == "light"@ {
        Some(ThemeName::Light)
    } else if name == "solarized-dark"@ || name == "solarizeddark"@ {
        Some(ThemeName::SolarizedDark)
    } else if name == "solarized-light"@ || name == "solarizedlight"@ {
        Some(ThemeName::SolarizedLight)
    } else if name == "dracula"@ {
        Some(ThemeName::Dracula)
    } else if name == "nord"@ {
        Some(ThemeName::Nord)
    } else if name == "custom"@ {
        Some(ThemeName::Custom)
    } else {
        None
    }
}

/// Whether two strings are equal, character by character.
pub(crate) fn same_text(a: &str, b: &str) -> (res: bool)
    ensures
        res == (a@ == b@),
{
    let n = a.unicode_len();
    if n != b.unicode_len() {
        return false;
    }
    let mut i: usize = 0;
    while i < n
        invariant
            n == a@.len(),
            n == b@.len(),
            i <= n,
            forall|k: int| 0 <= k < i ==> a@[k] == b@[k],
        decreases n - i,
    {
        if a.get_char(i) != b.get_char(i) {
            return false;
        }
        i = i + 1;
    }
    assert(a@ =~= b@);
    true
}

impl ThemeName {
    /// The theme named `name` once lowercased ("solarized-dark" and
    /// "solarizeddark" both name Solarized Dark).
    pub fn from_lowercase_name(name: &str) -> (res: Option<Self>)
        ensures
            res == theme_named(name@),
    {
        if same_text(name, "mochi") {
            Some(ThemeName::Mochi)
        } else if same_text(name, "dark") {
            Some(ThemeName::Dark)
        } else if same_text(name, "light") {
            Some(ThemeName::Light)
        } else if same_text(name, "solarized-dark") || same_text(name, "solarizeddark") {
            Some(ThemeName::SolarizedDark)
        } else if same_text(name, "solarized-light") || same_text(name, "solarizedlight") {
            Some(ThemeName::SolarizedLight)
        } else if same_text(name, "dracula") {
            Some(ThemeName::Dracula)
        } else if same_text(name, "nord") {
            Some(ThemeName::Nord)
        } else if same_text(name, "custom") {
            Some(ThemeName::Custom)
        } else {
            None
        }
    }

    /// Parse a theme name, ignoring case.
    pub fn from_str(s: &str) -> (res: Option<Self>)
        ensures
            res == theme_named(lowercase(s@)),
    {
        let lower = str_to_lowercase(s);
        Self::from_lowercase_name(lower.as_str())
    }

    /// The names `from_str` accepts, one per theme.
    pub fn all_names() -> (res: &'static [&'static str])
        ensures
            res@.len() == 8,
    {
        &["mochi", "dark", "light", "solarized-dark", "solarized-light", "dracula", "nord", "custom"]
    }

    /// The short name shown for the theme.
    pub fn display_name(self) -> (res: &'static str)
        ensures
            res@ == display_name_of(self),
    {
        match self {
            ThemeName::Mochi => "mochi",
            ThemeName::Dark => "dark",
            ThemeName::Light => "light",
            ThemeName::SolarizedDark => "sol-dark",
            ThemeName::SolarizedLight => "sol-light",
            ThemeName::Dracula => "dracula",
            ThemeName::Nord => "nord",
            ThemeName::Custom => "custom",
        }
    }

    /// The theme after this one in the toggle cycle (custom goes back to
    /// mochi).
    pub fn next(self) -> (res: Self)
        ensures
            res == next_theme(self),
    {
        match self {
            ThemeName::Mochi => ThemeName::Dark,
            ThemeName::Dark => ThemeName::Light,
            ThemeName::Light => ThemeName::SolarizedDark,
            ThemeName::SolarizedDark => ThemeName::SolarizedLight,
            ThemeName::SolarizedLight => ThemeName::Dracula,
            ThemeName::Dracula => ThemeName::Nord,
            ThemeName::Nord => ThemeName::Mochi,
            ThemeName::Custom => ThemeName::Mochi,
        }
    }
}

pub open spec fn display_name_of(t: ThemeName) -> Seq<char> {
    match t {
        ThemeName::Mochi => "mochi"@,
        ThemeName::Dark => "dark"@,
        ThemeName::Light => "light"@,
        ThemeName::SolarizedDark => "sol-dark"@,
        ThemeName::SolarizedLight => "sol-light"@,
        ThemeName::Dracula => "dracula"@,
        ThemeName::Nord => "nord"@,
        ThemeName::Custom => "custom"@,
    }
}

pub open spec fn next_theme(t: ThemeName) -> ThemeName {
    match t {
        ThemeName::Mochi => ThemeName::Dark,
        ThemeName::Dark => ThemeName::Light,
        ThemeName::Light => ThemeName::SolarizedDark,
        ThemeName::SolarizedDark => ThemeName::SolarizedLight,
        ThemeName::SolarizedLight => ThemeName::Dracula,
        ThemeName::Dracula => ThemeName::Nord,
        ThemeName::Nord => ThemeName::Mochi,
        ThemeName::Custom => ThemeName::Mochi,
    }
}

/// Seven toggles from any built-in theme come back to it: the cycle goes
/// through every built-in theme once.
pub proof fn lemma_next_cycles(t: ThemeName)
    requires
        t != ThemeName::Custom,
    ensures
        next_theme(next_theme(next_theme(next_theme(next_theme(next_theme(next_theme(t))))))) == t,
        next_theme(t) != t,
{
}

/// Keybinding actions.
#[derive(Debug, Clone, Copy, PartialEq, Eq, Structural)]
pub enum KeyAction {
    Copy,
    Paste,
    Find,
    ReloadConfig,
    ToggleTheme,
    ZoomIn,
    ZoomOut,
    ZoomReset,
    ScrollUp,
    ScrollDown,
    ScrollPageUp,
    ScrollPageDown,
    ScrollToTop,
    ScrollToBottom,
    ClearScrollback,
}

/// A key combination and the action it triggers.
#[derive(Debug, Clone)]
pub struct Keybinding {
    /// Key combination (e.g. "ctrl+shift+c")
    pub key: String,
    pub action: KeyAction,
}

impl Default for Keybinding {
    fn default() -> (res: Self)
        ensures
            res.key@ == Seq::<char>::empty(),
            res.action == KeyAction::Copy,
    {
        Keybinding { key: String::new(), action: KeyAction::Copy }
    }
}

/// Keybindings configuration.
#[derive(Debug, Clone)]
pub struct KeybindingsConfig {
    pub copy: String,
    pub paste: String,
    pub find: String,
    pub reload_config: String,
    pub toggle_theme: String,
    pub zoom_in: String,
    pub zoom_out: String,
    pub zoom_reset: String,
}

impl Default for KeybindingsConfig {
    fn default() -> (res: Self)
        ensures
            res.copy@ == "ctrl+shift+c"@,
            res.paste@ == "ctrl+shift+v"@,
            res.find@ == "ctrl+shift+f"@,
            res.reload_config@ == "ctrl+shift+r"@,
            res.toggle_theme@ == "ctrl+shift+t"@,
            res.zoom_in@ == "ctrl+plus"@,
            res.zoom_out@ == "ctrl+minus"@,
            res.zoom_reset@ == "ctrl+0"@,
    {
        KeybindingsConfig {
            copy: String::from_str("ctrl+shift+c"),
            paste: String::from_str("ctrl+shift+v"),
            find: String::from_str("ctrl+shift+f"),
            reload_config: String::from_str("ctrl+shift+r"),
            toggle_theme: String::from_str("ctrl+shift+t"),
            zoom_in: String::from_str("ctrl+plus"),
            zoom_out: String::from_str("ctrl+minus"),
            zoom_reset: String::from_str("ctrl+0"),
        }
    }
}

/// Security configuration.
#[derive(Debug, Clone, Copy, PartialEq, Eq, Structural)]
pub struct SecurityConfig {
    /// Enable OSC 52 clipboard sequences (off by default)
    pub osc52_clipboard: bool,
    /// Maximum OSC 52 payload size in bytes
    pub osc52_max_size: usize,
    /// Notify when an escape sequence changes the clipboard
    pub osc52_notify: bool,
    /// Maximum title updates per second
    pub title_update_rate: u32,
}

impl Default for SecurityConfig {
    fn default() -> (res: Self)
        ensures
            res == (SecurityConfig {
                osc52_clipboard: false,
                osc52_max_size: 100000,
                osc52_notify: true,
                title_update_rate: 10,
            }),
    {
        SecurityConfig { osc52_clipboard: false, osc52_max_size: 100000, osc52_notify: true, title_update_rate: 10 }
    }
}

/// A configuration error: a message and the field it is about.
#[derive(Debug, Clone)]
pub struct ConfigError {
    pub message: String,
    pub field: Option<String>,
}

/// Color scheme: hex colors for the foreground, background, cursor,
/// selection and the 16 ANSI colors.
#[derive(Debug, Clone)]
pub struct ColorScheme {
    pub foreground: String,
    pub background: String,
    pub cursor: String,
    pub selection: String,
    pub ansi: [String; 16],
}

/// The 20 colors of a scheme in order: foreground, background, cursor,
/// selection, then ANSI 0 to 15.
pub open spec fn scheme_colors(s: ColorScheme) -> Seq<Seq<char>> {
    seq![s.foreground@, s.background@, s.cursor@, s.selection@] + Seq::new(16, |i: int| s.ansi@[i]@)
}

/// The colors of the mochi theme.
pub open spec fn mochi_colors() -> Seq<Seq<char>> {
    seq![
        "#5c4d5c"@,
        "#fff5f5"@,
        "#ff8fab"@,
        "#ffd6e0"@,
        "#5c4d5c"@,
        "#e64980"@,
        "#40a070"@,
        "#d9730d"@,
        "#9775fa"@,
        "#f06595"@,
        "#22b8cf"@,
        "#fff0f3"@,
        "#8b7a8b"@,
        "#ff8fa3"@,
        "#69db7c"@,
        "#ffa94d"@,
        "#b197fc"@,
        "#faa2c1"@,
        "#66d9e8"@,
        "#ffffff"@,
    ]
}

/// The colors of the dark theme.
pub open spec fn dark_colors() -> Seq<Seq<char>> {
    seq![
        "#d4d4d4"@,
        "#1e1e1e"@,
        "#ffffff"@,
        "#264f78"@,
        "#000000"@,
        "#cd3131"@,
        "#0dbc79"@,
        "#e5e510"@,
        "#2472c8"@,
        "#bc3fbc"@,
        "#11a8cd"@,
        "#e5e5e5"@,
        "#666666"@,
        "#f14c4c"@,
        "#23d18b"@,
        "#f5f543"@,
        "#3b8eea"@,
        "#d670d6"@,
        "#29b8db"@,
        "#ffffff"@,
    ]
}

/// The colors of the light theme.
pub open spec fn light_colors() -> Seq<Seq<char>> {
    seq![
        "#333333"@,
        "#ffffff"@,
        "#000000"@,
        "#add6ff"@,
        "#000000"@,
        "#cd3131"@,
        "#00bc00"@,
        "#949800"@,
        "#0451a5"@,
        "#bc05bc"@,
        "#0598bc"@,
        "#555555"@,
        "#666666"@,
        "#cd3131"@,
        "#14ce14"@,
        "#b5ba00"@,
        "#0451a5"@,
        "#bc05bc"@,
        "#0598bc"@,
        "#a5a5a5"@,
    ]
}

/// The colors of the solarized dark theme.
pub open spec fn solarized_dark_colors() -> Seq<Seq<char>> {
    seq![
        "#839496"@,
        "#002b36"@,
        "#93a1a1"@,
        "#073642"@,
        "#073642"@,
        "#dc322f"@,
        "#859900"@,
        "#b58900"@,
        "#268bd2"@,
        "#d33682"@,
        "#2aa198"@,
        "#eee8d5"@,
        "#002b36"@,
        "#cb4b16"@,
        "#586e75"@,
        "#657b83"@,
        "#839496"@,
        "#6c71c4"@,
        "#93a1a1"@,
        "#fdf6e3"@,
    ]
}

/// The colors of the solarized light theme.
pub open spec fn solarized_light_colors() -> Seq<Seq<char>> {
    seq![
        "#657b83"@,
        "#fdf6e3"@,
        "#586e75"@,
        "#eee8d5"@,
        "#073642"@,
        "#dc322f"@,
        "#859900"@,
        "#b58900"@,
        "#268bd2"@,
        "#d33682"@,
        "#2aa198"@,
        "#eee8d5"@,
        "#002b36"@,
        "#cb4b16"@,
        "#586e75"@,
        "#657b83"@,
        "#839496"@,
        "#6c71c4"@,
        "#93a1a1"@,
        "#fdf6e3"@,
    ]
}

/// The colors of the dracula theme.
pub open spec fn dracula_colors() -> Seq<Seq<char>> {
    seq![
        "#f8f8f2"@,
        "#282a36"@,
        "#f8f8f2"@,
        "#44475a"@,
        "#21222c"@,
        "#ff5555"@,
        "#50fa7b"@,
        "#f1fa8c"@,
        "#bd93f9"@,
        "#ff79c6"@,
        "#8be9fd"@,
        "#f8f8f2"@,
        "#6272a4"@,
        "#ff6e6e"@,
        "#69ff94"@,
        "#ffffa5"@,
        "#d6acff"@,
        "#ff92df"@,
        "#a4ffff"@,
        "#ffffff"@,
    ]
}

/// The colors of the nord theme.
pub open spec fn nord_colors() -> Seq<Seq<char>> {
    seq![
        "#d8dee9"@,
        "#2e3440"@,
        "#d8dee9"@,
        "#434c5e"@,
        "#3b4252"@,
        "#bf616a"@,
        "#a3be8c"@,
        "#ebcb8b"@,
        "#81a1c1"@,
        "#b48ead"@,
        "#88c0d0"@,
        "#e5e9f0"@,
        "#4c566a"@,
        "#bf616a"@,
        "#a3be8c"@,
        "#ebcb8b"@,
        "#81a1c1"@,
        "#b48ead"@,
        "#8fbcbb"@,
        "#eceff4"@,
    ]
}

impl Default for ColorScheme {
    /// The dark theme colors.
    fn default() -> (res: Self)
        ensures
            scheme_colors(res) == dark_colors(),
    {
        let res = ColorScheme {
            foreground: String::from_str("#d4d4d4"),
            background: String::from_str("#1e1e1e"),
            cursor: String::from_str("#ffffff"),
            selection: String::from_str("#264f78"),
            ansi: [
                String::from_str("#000000"),
                String::from_str("#cd3131"),
                String::from_str("#0dbc79"),
                String::from_str("#e5e510"),
                String::from_str("#2472c8"),
                String::from_str("#bc3fbc"),
                String::from_str("#11a8cd"),
                String::from_str("#e5e5e5"),
                String::from_str("#666666"),
                String::from_str("#f14c4c"),
                String::from_str("#23d18b"),
                String::from_str("#f5f543"),
                String::from_str("#3b8eea"),
                String::from_str("#d670d6"),
                String::from_str("#29b8db"),
                String::from_str("#ffffff"),
            ],
        };
        proof {
            assert(scheme_colors(res) =~= dark_colors());
        }
        res
    }
}

impl ColorScheme {
    /// The mochi theme: soft pinks on a rose-white background (the default theme).
    pub fn mochi() -> (res: Self)
        ensures
            scheme_colors(res) == mochi_colors(),
    {
        let res = ColorScheme {
            foreground: String::from_str("#5c4d5c"),
            background: String::from_str("#fff5f5"),
            cursor: String::from_str("#ff8fab"),
            selection: String::from_str("#ffd6e0"),
            ansi: [
                String::from_str("#5c4d5c"),
                String::from_str("#e64980"),
                String::from_str("#40a070"),
                String::from_str("#d9730d"),
                String::from_str("#9775fa"),
                String::from_str("#f06595"),
                String::from_str("#22b8cf"),
                String::from_str("#fff0f3"),
                String::from_str("#8b7a8b"),
                String::from_str("#ff8fa3"),
                String::from_str("#69db7c"),
                String::from_str("#ffa94d"),
                String::from_str("#b197fc"),
                String::from_str("#faa2c1"),
                String::from_str("#66d9e8"),
                String::from_str("#ffffff"),
            ],
        };
        proof {
            assert(scheme_colors(res) =~= mochi_colors());
        }
        res
    }

    /// The light theme.
    pub fn light() -> (res: Self)
        ensures
            scheme_colors(res) == light_colors(),
    {
        let res = ColorScheme {
            foreground: String::from_str("#333333"),
            background: String::from_str("#ffffff"),
            cursor: String::from_str("#000000"),
            selection: String::from_str("#add6ff"),
            ansi: [
                String::from_str("#000000"),
                String::from_str("#cd3131"),
                String::from_str("#00bc00"),
                String::from_str("#949800"),
                String::from_str("#0451a5"),
                String::from_str("#bc05bc"),
                String::from_str("#0598bc"),
                String::from_str("#555555"),
                String::from_str("#666666"),
                String::from_str("#cd3131"),
                String::from_str("#14ce14"),
                String::from_str("#b5ba00"),
                String::from_str("#0451a5"),
                String::from_str("#bc05bc"),
                String::from_str("#0598bc"),
                String::from_str("#a5a5a5"),
            ],
        };
        proof {
            assert(scheme_colors(res) =~= light_colors());
        }
        res
    }

    /// Solarized Dark.
    pub fn solarized_dark() -> (res: Self)
        ensures
            scheme_colors(res) == solarized_dark_colors(),
    {
        let res = ColorScheme {
            foreground: String::from_str("#839496"),
            background: String::from_str("#002b36"),
            cursor: String::from_str("#93a1a1"),
            selection: String::from_str("#073642"),
            ansi: [
                String::from_str("#073642"),
                String::from_str("#dc322f"),
                String::from_str("#859900"),
                String::from_str("#b58900"),
                String::from_str("#268bd2"),
                String::from_str("#d33682"),
                String::from_str("#2aa198"),
                String::from_str("#eee8d5"),
                String::from_str("#002b36"),
                String::from_str("#cb4b16"),
                String::from_str("#586e75"),
                String::from_str("#657b83"),
                String::from_str("#839496"),
                String::from_str("#6c71c4"),
                String::from_str("#93a1a1"),
                String::from_str("#fdf6e3"),
            ],
        };
        proof {
            assert(scheme_colors(res) =~= solarized_dark_colors());
        }
        res
    }

    /// Solarized Light.
    pub fn solarized_light() -> (res: Self)
        ensures
            scheme_colors(res) == solarized_light_colors(),
    {
        let res = ColorScheme {
            foreground: String::from_str("#657b83"),
            background: String::from_str("#fdf6e3"),
            cursor: String::from_str("#586e75"),
            selection: String::from_str("#eee8d5"),
            ansi: [
                String::from_str("#073642"),
                String::from_str("#dc322f"),
                String::from_str("#859900"),
                String::from_str("#b58900"),
                String::from_str("#268bd2"),
                String::from_str("#d33682"),
                String::from_str("#2aa198"),
                String::from_str("#eee8d5"),
                String::from_str("#002b36"),
                String::from_str("#cb4b16"),
                String::from_str("#586e75"),
                String::from_str("#657b83"),
                String::from_str("#839496"),
                String::from_str("#6c71c4"),
                String::from_str("#93a1a1"),
                String::from_str("#fdf6e3"),
            ],
        };
        proof {
            assert(scheme_colors(res) =~= solarized_light_colors());
        }
        res
    }

    /// Dracula.
    pub fn dracula() -> (res: Self)
        ensures
            scheme_colors(res) == dracula_colors(),
    {
        let res = ColorScheme {
            foreground: String::from_str("#f8f8f2"),
            background: String::from_str("#282a36"),
            cursor: String::from_str("#f8f8f2"),
            selection: String::from_str("#44475a"),
            ansi: [
                String::from_str("#21222c"),
                String::from_str("#ff5555"),
                String::from_str("#50fa7b"),
                String::from_str("#f1fa8c"),
                String::from_str("#bd93f9"),
                String::from_str("#ff79c6"),
                String::from_str("#8be9fd"),
                String::from_str("#f8f8f2"),
                String::from_str("#6272a4"),
                String::from_str("#ff6e6e"),
                String::from_str("#69ff94"),
                String::from_str("#ffffa5"),
                String::from_str("#d6acff"),
                String::from_str("#ff92df"),
                String::from_str("#a4ffff"),
                String::from_str("#ffffff"),
            ],
        };
        proof {
            assert(scheme_colors(res) =~= dracula_colors());
        }
        res
    }

    /// Nord.
    pub fn nord() -> (res: Self)
        ensures
            scheme_colors(res) == nord_colors(),
    {
        let res = ColorScheme {
            foreground: String::from_str("#d8dee9"),
            background: String::from_str("#2e3440"),
            cursor: String::from_str("#d8dee9"),
            selection: String::from_str("#434c5e"),
            ansi: [
                String::from_str("#3b4252"),
                String::from_str("#bf616a"),
                String::from_str("#a3be8c"),
                String::from_str("#ebcb8b"),
                String::from_str("#81a1c1"),
                String::from_str("#b48ead"),
                String::from_str("#88c0d0"),
                String::from_str("#e5e9f0"),
                String::from_str("#4c566a"),
                String::from_str("#bf616a"),
                String::from_str("#a3be8c"),
                String::from_str("#ebcb8b"),
                String::from_str("#81a1c1"),
                String::from_str("#b48ead"),
                String::from_str("#8fbcbb"),
                String::from_str("#eceff4"),
            ],
        };
        proof {
            assert(scheme_colors(res) =~= nord_colors());
        }
        res
    }

    /// The dark theme.
    pub fn dark() -> (res: Self)
        ensures
            scheme_colors(res) == dark_colors(),
    {
        Self::default()
    }

    /// Parse a hex color: `#` signs in front are dropped, then exactly six
    /// hex digits, two per component; anything else gives `None`.
    pub fn parse_hex(hex: &str) -> (res: Option<(u8, u8, u8)>)
        ensures
            res == parsed_hex(hex@),
    {
        let n = hex.unicode_len();
        let mut start: usize = 0;
        proof {
            assert(hex@.subrange(0, n as int) =~= hex@);
        }
        while start < n && hex.get_char(start) == '#'
            invariant
                n == hex@.len(),
                start <= n,
                without_hashes(hex@) == without_hashes(hex@.subrange(start as int, n as int)),
            decreases n - start,
        {
            proof {
                let s = hex@.subrange(start as int, n as int);
                assert(s.drop_first() =~= hex@.subrange(start + 1, n as int));
            }
            start = start + 1;
        }
        proof {
            let s = hex@.subrange(start as int, n as int);
            assert(without_hashes(s) == s);
        }
        if n - start != 6 {
            return None;
        }
        let r = hex_pair(hex.get_char(start), hex.get_char(start + 1));
        let g = hex_pair(hex.get_char(start + 2), hex.get_char(start + 3));
        let b = hex_pair(hex.get_char(start + 4), hex.get_char(start + 5));
        match (r, g, b) {
            (Some(r), Some(g), Some(b)) => Some((r, g, b)),
            _ => None,
        }
    }

    /// The foreground color, or (212, 212, 212) when it does not parse.
    pub fn foreground_rgb(&self) -> (res: (u8, u8, u8))
        ensures
            res == or_default(parsed_hex(self.foreground@), (212, 212, 212)),
    {
        match Self::parse_hex(self.foreground.as_str()) {
            Some(c) => c,
            None => (212, 212, 212),
        }
    }

    /// The background color, or (30, 30, 30).
    pub fn background_rgb(&self) -> (res: (u8, u8, u8))
        ensures
            res == or_default(parsed_hex(self.background@), (30, 30, 30)),
    {
        match Self::parse_hex(self.background.as_str()) {
            Some(c) => c,
            None => (30, 30, 30),
        }
    }

    /// The cursor color, or (255, 255, 255).
    pub fn cursor_rgb(&self) -> (res: (u8, u8, u8))
        ensures
            res == or_default(parsed_hex(self.cursor@), (255, 255, 255)),
    {
        match Self::parse_hex(self.cursor.as_str()) {
            Some(c) => c,
            None => (255, 255, 255),
        }
    }

    /// The selection color, or (38, 79, 120).
    pub fn selection_rgb(&self) -> (res: (u8, u8, u8))
        ensures
            res == or_default(parsed_hex(self.selection@), (38, 79, 120)),
    {
        match Self::parse_hex(self.selection.as_str()) {
            Some(c) => c,
            None => (38, 79, 120),
        }
    }

    /// ANSI color `index`, or (128, 128, 128) when it does not parse or
    /// there is no such color.
    pub fn ansi_rgb(&self, index: usize) -> (res: (u8, u8, u8))
        ensures
            res == (if index < 16 {
                or_default(parsed_hex(self.ansi@[index as int]@), (128, 128, 128))
            } else {
                (128, 128, 128)
            }),
    {
        if index < 16 {
            match Self::parse_hex(self.ansi[index].as_str()) {
                Some(c) => c,
                None => (128, 128, 128),
            }
        } else {
            (128, 128, 128)
        }
    }
}

pub open spec fn or_default(c: Option<(u8, u8, u8)>, d: (u8, u8, u8)) -> (u8, u8, u8) {
    match c {
        Some(v) => v,
        None => d,
    }
}

/// `s` without its leading `#` signs.
pub open spec fn without_hashes(s: Seq<char>) -> Seq<char>
    decreases s.len(),
{
    if s.len() > 0 && s[0] == '#' {
        without_hashes(s.drop_first())
    } else {
        s
    }
}

/// The value of a hex digit.
pub open spec fn hex_value(c: char) -> Option<u8> {
    if '0' <= c && c <= '9' {
        Some((c as int - 0x30) as u8)
    } else if 'a' <= c && c <= 'f' {
        Some((c as int - 0x61 + 10) as u8)
    } else if 'A' <= c && c <= 'F' {
        Some((c as int - 0x41 + 10) as u8)
    } else {
        None
    }
}

/// A two-character component: two hex digits.
pub open spec fn pair_value(a: char, b: char) -> Option<u8> {
    match (hex_value(a), hex_value(b)) {
        (Some(x), Some(y)) => Some((x * 16 + y) as u8),
        _ => None,
    }
}

/// The color a hex string stands for.
pub open spec fn parsed_hex(s: Seq<char>) -> Option<(u8, u8, u8)> {
    let h = without_hashes(s);
    if h.len() == 6 {
        match (pair_value(h[0], h[1]), pair_value(h[2], h[3]), pair_value(h[4], h[5])) {
            (Some(r), Some(g), Some(b)) => Some((r, g, b)),
            _ => None,
        }
    } else {
        None
    }
}

fn hex_digit(c: char) -> (res: Option<u8>)
    ensures
        res == hex_value(c),
{
    let v = c as u32;
    if '0' <= c && c <= '9' {
        Some((v - 0x30) as u8)
    } else if 'a' <= c && c <= 'f' {
        Some((v - 0x61 + 10) as u8)
    } else if 'A' <= c && c <= 'F' {
        Some((v - 0x41 + 10) as u8)
    } else {
        None
    }
}

fn hex_pair(a: char, b: char) -> (res: Option<u8>)
    ensures
        res == pair_value(a, b),
{
    match (hex_digit(a), hex_digit(b)) {
        (Some(x), Some(y)) => Some(x * 16 + y),
        _ => None,
    }
}

/// The configuration field names of the 20 scheme colors, in the order of
/// `scheme_colors`.
pub open spec fn color_fields() -> Seq<Seq<char>> {
    seq![
        "colors.foreground"@,
        "colors.background"@,
        "colors.cursor"@,
        "colors.selection"@,
        "colors.ansi[0]"@,
        "colors.ansi[1]"@,
        "colors.ansi[2]"@,
        "colors.ansi[3]"@,
        "colors.ansi[4]"@,
        "colors.ansi[5]"@,
        "colors.ansi[6]"@,
        "colors.ansi[7]"@,
        "colors.ansi[8]"@,
        "colors.ansi[9]"@,
        "colors.ansi[10]"@,
        "colors.ansi[11]"@,
        "colors.ansi[12]"@,
        "colors.ansi[13]"@,
        "colors.ansi[14]"@,
        "colors.ansi[15]"@,
    ]
}

/// The first color of `colors` that does not parse, if any.
pub open spec fn first_bad_color(colors: Seq<Seq<char>>, from: int) -> Option<int>
    decreases colors.len() - from,
{
    if from >= colors.len() || from < 0 {
        None
    } else if parsed_hex(colors[from]) is None {
        Some(from)
    } else {
        first_bad_color(colors, from + 1)
    }
}

/// The message for a color that does not parse.
pub open spec fn bad_color_message(color: Seq<char>) -> Seq<char> {
    "Invalid hex color '"@ + color + "'. Expected format: #RRGGBB"@
}

/// Whether `e` carries `message` and names `field`.
pub open spec fn error_is(e: ConfigError, message: Seq<char>, field: Seq<char>) -> bool {
    e.message@ == message && e.field is Some && e.field.unwrap()@ == field
}

fn config_error(message: String, field: &str) -> (e: ConfigError)
    ensures
        error_is(e, message@, field@),
{
    ConfigError { message, field: Some(String::from_str(field)) }
}

/// The window must have at least 10 columns and 3 rows.
pub fn check_dimensions(cols: u16, rows: u16) -> (res: Result<(), ConfigError>)
    ensures
        res is Ok <==> cols >= 10 && rows >= 3,
        cols < 10 ==> (res matches Err(e) && error_is(e, "Window columns must be at least 10"@, "dimensions"@)),
        cols >= 10 && rows < 3 ==> (res matches Err(e) && error_is(e, "Window rows must be at least 3"@, "dimensions"@)),
{
    if cols < 10 {
        return Err(config_error(String::from_str("Window columns must be at least 10"), "dimensions"));
    }
    if rows < 3 {
        return Err(config_error(String::from_str("Window rows must be at least 3"), "dimensions"));
    }
    Ok(())
}

/// The scrollback keeps at most 10,000,000 lines.
pub fn check_scrollback(lines: usize) -> (res: Result<(), ConfigError>)
    ensures
        res is Ok <==> lines <= 10_000_000,
        lines > 10_000_000 ==> (res matches Err(e) && error_is(
            e,
            "Scrollback lines must be at most 10,000,000"@,
            "scrollback_lines"@,
        )),
{
    if lines > 10_000_000 {
        return Err(
            config_error(String::from_str("Scrollback lines must be at most 10,000,000"), "scrollback_lines"),
        );
    }
    Ok(())
}

/// Every color of the scheme must parse; the error names the first one
/// that does not.
pub fn check_colors(colors: &ColorScheme) -> (res: Result<(), ConfigError>)
    ensures
        res is Ok <==> first_bad_color(scheme_colors(*colors), 0) is None,
        res matches Err(e) ==> {
            let i = first_bad_color(scheme_colors(*colors), 0).unwrap();
            error_is(e, bad_color_message(scheme_colors(*colors)[i]), color_fields()[i])
        },
{
    let fields: [&str; 20] = [
            "colors.foreground",
            "colors.background",
            "colors.cursor",
            "colors.selection",
            "colors.ansi[0]",
            "colors.ansi[1]",
            "colors.ansi[2]",
            "colors.ansi[3]",
            "colors.ansi[4]",
            "colors.ansi[5]",
            "colors.ansi[6]",
            "colors.ansi[7]",
            "colors.ansi[8]",
            "colors.ansi[9]",
            "colors.ansi[10]",
            "colors.ansi[11]",
            "colors.ansi[12]",
            "colors.ansi[13]",
            "colors.ansi[14]",
            "colors.ansi[15]",
        ];
    let values: [&String; 20] = [
        &colors.foreground,
        &colors.background,
        &colors.cursor,
        &colors.selection,
        &colors.ansi[0],
        &colors.ansi[1],
        &colors.ansi[2],
        &colors.ansi[3],
        &colors.ansi[4],
        &colors.ansi[5],
        &colors.ansi[6],
        &colors.ansi[7],
        &colors.ansi[8],
        &colors.ansi[9],
        &colors.ansi[10],
        &colors.ansi[11],
        &colors.ansi[12],
        &colors.ansi[13],
        &colors.ansi[14],
        &colors.ansi[15],
    ];
    let ghost all = scheme_colors(*colors);
    proof {
        assert(values@.len() == 20);
        assert(forall|k: int| 0 <= k < 20 ==> #[trigger] values@[k]@ == all[k]);
        assert(forall|k: int| 0 <= k < 20 ==> #[trigger] fields@[k]@ == color_fields()[k]);
    }
    let mut i: usize = 0;
    while i < 20
        invariant
            i <= 20,
            all == scheme_colors(*colors),
            all.len() == 20,
            values@.len() == 20,
            fields@.len() == 20,
            forall|k: int| 0 <= k < 20 ==> #[trigger] values@[k]@ == all[k],
            forall|k: int| 0 <= k < 20 ==> #[trigger] fields@[k]@ == color_fields()[k],
            first_bad_color(all, 0) == first_bad_color(all, i as int),
        decreases 20 - i,
    {
        let v = values[i];
        assert(v@ == all[i as int]);
        let parsed = ColorScheme::parse_hex(v.as_str());
        if parsed.is_none() {
            assert(first_bad_color(all, i as int) == Some(i as int));
            let mut message = String::from_str("Invalid hex color '");
            message.append(v.as_str());
            message.append("'. Expected format: #RRGGBB");
            proof {
                assert(message@ =~= bad_color_message(all[i as int]));
            }
            return Err(config_error(message, fields[i]));
        }
        i = i + 1;
    }
    Ok(())
}

/// The colors a theme shows: those of the named theme, or the configured
/// `custom` ones for the custom theme.
pub open spec fn theme_colors(theme: ThemeName, custom: Seq<Seq<char>>) -> Seq<Seq<char>> {
    match theme {
        ThemeName::Custom => custom,
        ThemeName::Mochi => mochi_colors(),
        ThemeName::Dark => dark_colors(),
        ThemeName::Light => light_colors(),
        ThemeName::SolarizedDark => solarized_dark_colors(),
        ThemeName::SolarizedLight => solarized_light_colors(),
        ThemeName::Dracula => dracula_colors(),
        ThemeName::Nord => nord_colors(),
    }
}

impl ColorScheme {
    /// A copy of this scheme.
    pub fn duplicate(&self) -> (res: Self)
        ensures
            scheme_colors(res) == scheme_colors(*self),
    {
        let res = ColorScheme {
            foreground: self.foreground.clone(),
            background: self.background.clone(),
            cursor: self.cursor.clone(),
            selection: self.selection.clone(),
            ansi: [
                self.ansi[0].clone(),
                self.ansi[1].clone(),
                self.ansi[2].clone(),
                self.ansi[3].clone(),
                self.ansi[4].clone(),
                self.ansi[5].clone(),
                self.ansi[6].clone(),
                self.ansi[7].clone(),
                self.ansi[8].clone(),
                self.ansi[9].clone(),
                self.ansi[10].clone(),
                self.ansi[11].clone(),
                self.ansi[12].clone(),
                self.ansi[13].clone(),
                self.ansi[14].clone(),
                self.ansi[15].clone(),
            ],
        };
        proof {
            assert(scheme_colors(res) =~= scheme_colors(*self));
        }
        res
    }
}

/// The color scheme in effect for `theme`, with `custom` the configured
/// colors.
pub fn effective_colors(theme: ThemeName, custom: &ColorScheme) -> (res: ColorScheme)
    ensures
        scheme_colors(res) == theme_colors(theme, scheme_colors(*custom)),
{
    match theme {
        ThemeName::Custom => custom.duplicate(),
        ThemeName::Mochi => ColorScheme::mochi(),
        ThemeName::Dark => ColorScheme::dark(),
        ThemeName::Light => ColorScheme::light(),
        ThemeName::SolarizedDark => ColorScheme::solarized_dark(),
        ThemeName::SolarizedLight => ColorScheme::solarized_light(),
        ThemeName::Dracula => ColorScheme::dracula(),
        ThemeName::Nord => ColorScheme::nord(),
    }
}

/// Whether a setting for clipboard access through OSC 52 turns it on: `1`,
/// or `true` in any case.
pub fn osc52_setting_enabled(value: &str) -> (res: bool)
    ensures
        res == (value@ == "1"@ || lowercase(value@) == "true"@),
{
    if same_text(value, "1") {
        return true;
    }
    let lower = str_to_lowercase(value);
    same_text(lower.as_str(), "true")
}

} // verus!
