//! The colours of the screen: presets, and the configuration's own colours on top of them.

use ratatui::style::Color::{
    Black, Blue, Cyan, DarkGray, Gray, Green, Indexed, LightBlue, LightCyan, LightGreen,
    LightMagenta, LightRed, LightYellow, Magenta, Red, Reset, Rgb, White, Yellow,
};
use vstd::prelude::*;

use crate::keymap::entries;
use crate::text::{owned, quote, quoted, same};

verus! {

/// A colour of the terminal.
#[derive(Debug, Clone, Copy, PartialEq, Eq, Structural)]
pub enum Color {
    Reset,
    Black,
    Red,
    Green,
    Yellow,
    Blue,
    Magenta,
    Cyan,
    Gray,
    DarkGray,
    LightRed,
    LightGreen,
    LightYellow,
    LightBlue,
    LightMagenta,
    LightCyan,
    White,
    Rgb(u8, u8, u8),
    Indexed(u8),
}

/// The colour that a text stands for: a name such as `light_blue`, `#rrggbb` or an ANSI index.
pub uninterp spec fn color_of(value: Seq<char>) -> Option<Color>;

/// `ratatui::style::Color`'s `FromStr`: the colour that a text stands for. Which texts it takes,
/// and for which colour, depends on the text alone.
#[verifier::external_body]
fn parse_color(value: &str) -> (r: Option<Color>)
    ensures
        r == color_of(value@),
{
    value.parse::<ratatui::style::Color>().ok().map(|c| match c {
        Reset => Color::Reset, Black => Color::Black, Red => Color::Red,
        Green => Color::Green, Yellow => Color::Yellow, Blue => Color::Blue,
        Magenta => Color::Magenta, Cyan => Color::Cyan, Gray => Color::Gray,
        DarkGray => Color::DarkGray, LightRed => Color::LightRed,
        LightGreen => Color::LightGreen, LightYellow => Color::LightYellow,
        LightBlue => Color::LightBlue, LightMagenta => Color::LightMagenta,
        LightCyan => Color::LightCyan, White => Color::White,
        Rgb(r, g, b) => Color::Rgb(r, g, b), Indexed(i) => Color::Indexed(i),
    })
}

/// The colours of the screen.
#[derive(Debug, Clone, Copy, PartialEq, Eq, Structural)]
pub struct Theme {
    pub high: Color,
    pub low: Color,
    pub today: Color,
    pub other_day: Color,
    pub reminder: Color,
    pub overdue: Color,
    pub accent: Color,
    pub age: Color,
    pub repeat: Color,
    pub done_day: Color,
}

/// The names of the colours that can be set.
pub const COLOR_NAMES: &'static str =
    "high, low, today, other_day, reminder, overdue, accent, age, repeat, done_day";

/// The names of the presets.
pub const THEME_NAMES: &'static str = "default, nord, dawn, matrix, slate";

/// The colours of the preset `default`.
pub open spec fn default_theme() -> Theme {
    Theme {
        high: Color::Red,
        low: Color::DarkGray,
        today: Color::Green,
        other_day: Color::Magenta,
        reminder: Color::Cyan,
        overdue: Color::Red,
        accent: Color::Yellow,
        age: Color::Yellow,
        repeat: Color::Blue,
        done_day: Color::Green,
    }
}

/// The colours of the preset `nord`.
pub open spec fn nord_theme() -> Theme {
    Theme {
        high: Color::Rgb(191, 97, 106),
        low: Color::Rgb(76, 86, 106),
        today: Color::Rgb(163, 190, 140),
        other_day: Color::Rgb(180, 142, 173),
        reminder: Color::Rgb(136, 192, 208),
        overdue: Color::Rgb(191, 97, 106),
        accent: Color::Rgb(235, 203, 139),
        age: Color::Rgb(208, 135, 112),
        repeat: Color::Rgb(129, 161, 193),
        done_day: Color::Rgb(163, 190, 140),
    }
}

/// The colours of the preset `dawn`.
pub open spec fn dawn_theme() -> Theme {
    Theme {
        high: Color::Rgb(180, 99, 122),
        low: Color::Rgb(152, 147, 165),
        today: Color::Rgb(40, 105, 131),
        other_day: Color::Rgb(144, 122, 169),
        reminder: Color::Rgb(86, 148, 159),
        overdue: Color::Rgb(180, 99, 122),
        accent: Color::Rgb(234, 157, 52),
        age: Color::Rgb(215, 130, 126),
        repeat: Color::Rgb(86, 148, 159),
        done_day: Color::Rgb(40, 105, 131),
    }
}

/// The colours of the preset `matrix`.
pub open spec fn matrix_theme() -> Theme {
    Theme {
        high: Color::LightRed,
        low: Color::DarkGray,
        today: Color::LightGreen,
        other_day: Color::Green,
        reminder: Color::Rgb(0, 255, 65),
        overdue: Color::LightRed,
        accent: Color::LightGreen,
        age: Color::Green,
        repeat: Color::Rgb(0, 143, 17),
        done_day: Color::Green,
    }
}

/// The colours of the preset `slate`.
pub open spec fn slate_theme() -> Theme {
    Theme {
        high: Color::Rgb(224, 108, 117),
        low: Color::Rgb(92, 99, 112),
        today: Color::Rgb(152, 195, 121),
        other_day: Color::Rgb(198, 120, 221),
        reminder: Color::Rgb(86, 182, 194),
        overdue: Color::Rgb(224, 108, 117),
        accent: Color::Rgb(229, 192, 123),
        age: Color::Rgb(209, 154, 102),
        repeat: Color::Rgb(97, 175, 239),
        done_day: Color::Rgb(152, 195, 121),
    }
}

/// The preset of that name, if there is one.
pub open spec fn preset_of(name: Seq<char>) -> Option<Theme> {
    if name == "default"@ {
        Some(default_theme())
    } else if name == "nord"@ {
        Some(nord_theme())
    } else if name == "dawn"@ {
        Some(dawn_theme())
    } else if name == "matrix"@ {
        Some(matrix_theme())
    } else if name == "slate"@ {
        Some(slate_theme())
    } else {
        None
    }
}

/// The theme with one colour set; nothing where there is no colour of that name.
pub open spec fn with_color(theme: Theme, name: Seq<char>, color: Color) -> Option<Theme> {
    if name == "high"@ {
        Some(Theme { high: color, ..theme })
    } else if name == "low"@ {
        Some(Theme { low: color, ..theme })
    } else if name == "today"@ {
        Some(Theme { today: color, ..theme })
    } else if name == "other_day"@ {
        Some(Theme { other_day: color, ..theme })
    } else if name == "reminder"@ {
        Some(Theme { reminder: color, ..theme })
    } else if name == "overdue"@ {
        Some(Theme { overdue: color, ..theme })
    } else if name == "accent"@ {
        Some(Theme { accent: color, ..theme })
    } else if name == "age"@ {
        Some(Theme { age: color, ..theme })
    } else if name == "repeat"@ {
        Some(Theme { repeat: color, ..theme })
    } else if name == "done_day"@ {
        Some(Theme { done_day: color, ..theme })
    } else {
        None
    }
}

/// What can be wrong with colour settings.
#[verifier::ext_equal]
pub ghost enum ThemeFault {
    /// A preset that does not exist.
    UnknownTheme { name: Seq<char> },
    /// A text that stands for no colour.
    UnknownColor { name: Seq<char>, value: Seq<char> },
    /// A setting for a colour that does not exist.
    UnknownEntry { name: Seq<char> },
}

/// The theme with the first `n` colour settings applied, or the first thing that is wrong with
/// them.
pub open spec fn themed_until(
    theme: Theme,
    settings: Seq<(Seq<char>, Seq<char>)>,
    n: int,
) -> Result<Theme, ThemeFault>
    decreases n,
{
    if n <= 0 {
        Ok(theme)
    } else {
        match themed_until(theme, settings, n - 1) {
            Err(fault) => Err(fault),
            Ok(before) => {
                let (name, value) = settings[n - 1];
                match color_of(value) {
                    None => Err(ThemeFault::UnknownColor { name, value }),
                    Some(color) => match with_color(before, name, color) {
                        None => Err(ThemeFault::UnknownEntry { name }),
                        Some(after) => Ok(after),
                    },
                }
            },
        }
    }
}

/// The theme that a preset and colour settings make, or the first thing that is wrong with them.
pub open spec fn themed(
    preset: Seq<char>,
    settings: Seq<(Seq<char>, Seq<char>)>,
) -> Result<Theme, ThemeFault> {
    match preset_of(preset) {
        None => Err(ThemeFault::UnknownTheme { name: preset }),
        Some(theme) => themed_until(theme, settings, settings.len() as int),
    }
}

/// What is wrong with colour settings.
#[derive(Debug)]
pub enum ThemeError {
    /// A preset that does not exist.
    UnknownTheme { name: String },
    /// A text that stands for no colour.
    UnknownColor { name: String, value: String },
    /// A setting for a colour that does not exist.
    UnknownEntry { name: String },
}

impl View for ThemeError {
    type V = ThemeFault;

    open spec fn view(&self) -> ThemeFault {
        match self {
            ThemeError::UnknownTheme { name } => ThemeFault::UnknownTheme { name: name@ },
            ThemeError::UnknownColor { name, value } => ThemeFault::UnknownColor {
                name: name@,
                value: value@,
            },
            ThemeError::UnknownEntry { name } => ThemeFault::UnknownEntry { name: name@ },
        }
    }
}

impl ThemeFault {
    /// What is wrong, in words.
    pub open spec fn text(self) -> Seq<char> {
        match self {
            ThemeFault::UnknownTheme { name } => "unknown theme "@ + quoted(name) + " (valid: "@
                + THEME_NAMES@ + ")"@,
            ThemeFault::UnknownColor { name, value } => "[colors] "@ + name + ": unknown colour "@
                + quoted(value),
            ThemeFault::UnknownEntry { name } => "[colors] unknown entry "@ + quoted(name)
                + " (valid: "@ + COLOR_NAMES@ + ")"@,
        }
    }
}

impl ThemeError {
    /// What is wrong, in words.
    pub fn message(&self) -> (r: String)
        ensures
            r@ == self@.text(),
    {
        match self {
            ThemeError::UnknownTheme { name } => {
                let mut out = owned("unknown theme ");
                out.push_str(quote(name.as_str()).as_str());
                out.push_str(" (valid: ");
                out.push_str(THEME_NAMES);
                out.push_str(")");
                out
            },
            ThemeError::UnknownColor { name, value } => {
                let mut out = owned("[colors] ");
                out.push_str(name.as_str());
                out.push_str(": unknown colour ");
                out.push_str(quote(value.as_str()).as_str());
                out
            },
            ThemeError::UnknownEntry { name } => {
                let mut out = owned("[colors] unknown entry ");
                out.push_str(quote(name.as_str()).as_str());
                out.push_str(" (valid: ");
                out.push_str(COLOR_NAMES);
                out.push_str(")");
                out
            },
        }
    }
}

impl Default for Theme {
    fn default() -> (r: Self)
        ensures
            r == default_theme(),
    {
        Theme {
            high: Color::Red,
            low: Color::DarkGray,
            today: Color::Green,
            other_day: Color::Magenta,
            reminder: Color::Cyan,
            overdue: Color::Red,
            accent: Color::Yellow,
            age: Color::Yellow,
            repeat: Color::Blue,
            done_day: Color::Green,
        }
    }
}

impl Theme {
    /// The preset of that name, if there is one.
    pub fn preset(name: &str) -> (r: Option<Theme>)
        ensures
            r == preset_of(name@),
    {
        if same(name, "default") {
            Some(Theme::default())
        } else if same(name, "nord") {
            Some(Theme {
                high: Color::Rgb(191, 97, 106),
                low: Color::Rgb(76, 86, 106),
                today: Color::Rgb(163, 190, 140),
                other_day: Color::Rgb(180, 142, 173),
                reminder: Color::Rgb(136, 192, 208),
                overdue: Color::Rgb(191, 97, 106),
                accent: Color::Rgb(235, 203, 139),
                age: Color::Rgb(208, 135, 112),
                repeat: Color::Rgb(129, 161, 193),
                done_day: Color::Rgb(163, 190, 140),
            })
        } else if same(name, "dawn") {
            Some(Theme {
                high: Color::Rgb(180, 99, 122),
                low: Color::Rgb(152, 147, 165),
                today: Color::Rgb(40, 105, 131),
                other_day: Color::Rgb(144, 122, 169),
                reminder: Color::Rgb(86, 148, 159),
                overdue: Color::Rgb(180, 99, 122),
                accent: Color::Rgb(234, 157, 52),
                age: Color::Rgb(215, 130, 126),
                repeat: Color::Rgb(86, 148, 159),
                done_day: Color::Rgb(40, 105, 131),
            })
        } else if same(name, "matrix") {
            Some(Theme {
                high: Color::LightRed,
                low: Color::DarkGray,
                today: Color::LightGreen,
                other_day: Color::Green,
                reminder: Color::Rgb(0, 255, 65),
                overdue: Color::LightRed,
                accent: Color::LightGreen,
                age: Color::Green,
                repeat: Color::Rgb(0, 143, 17),
                done_day: Color::Green,
            })
        } else if same(name, "slate") {
            Some(Theme {
                high: Color::Rgb(224, 108, 117),
                low: Color::Rgb(92, 99, 112),
                today: Color::Rgb(152, 195, 121),
                other_day: Color::Rgb(198, 120, 221),
                reminder: Color::Rgb(86, 182, 194),
                overdue: Color::Rgb(224, 108, 117),
                accent: Color::Rgb(229, 192, 123),
                age: Color::Rgb(209, 154, 102),
                repeat: Color::Rgb(97, 175, 239),
                done_day: Color::Rgb(152, 195, 121),
            })
        } else {
            None
        }
    }

    /// The theme with one colour set; nothing where there is no colour of that name.
    pub fn with(self, name: &str, color: Color) -> (r: Option<Theme>)
        ensures
            r == with_color(self, name@, color),
    {
        let mut theme = self;
        if same(name, "high") {
            theme.high = color;
        } else if same(name, "low") {
            theme.low = color;
        } else if same(name, "today") {
            theme.today = color;
        } else if same(name, "other_day") {
            theme.other_day = color;
        } else if same(name, "reminder") {
            theme.reminder = color;
        } else if same(name, "overdue") {
            theme.overdue = color;
        } else if same(name, "accent") {
            theme.accent = color;
        } else if same(name, "age") {
            theme.age = color;
        } else if same(name, "repeat") {
            theme.repeat = color;
        } else if same(name, "done_day") {
            theme.done_day = color;
        } else {
            return None;
        }
        Some(theme)
    }

    /// Applies colour settings on top of the theme. Values are colour names
    /// (`red`, `light_blue`, `gray`…), `#rrggbb`, or an ANSI index.
    pub fn with_colors(self, colors: &Vec<(String, String)>) -> (r: Result<Theme, ThemeError>)
        ensures
            match r {
                Ok(theme) => themed_until(self, entries(colors@), colors@.len() as int) == Ok::<
                    Theme,
                    ThemeFault,
                >(theme),
                Err(e) => themed_until(self, entries(colors@), colors@.len() as int) == Err::<
                    Theme,
                    ThemeFault,
                >(e@),
            },
    {
        let ghost settings = entries(colors@);
        let mut theme = self;
        let mut n: usize = 0;
        while n < colors.len()
            invariant
                n <= colors@.len(),
                settings == entries(colors@),
                themed_until(self, settings, n as int) == Ok::<Theme, ThemeFault>(theme),
            decreases colors@.len() - n,
        {
            let name = colors[n].0.as_str();
            let value = colors[n].1.as_str();
            assert(settings[n as int] == (name@, value@));
            let color = match parse_color(value) {
                Some(color) => color,
                None => {
                    proof {
                        first_fault_stays(self, settings, n + 1, colors@.len() as int);
                    }
                    return Err(
                        ThemeError::UnknownColor { name: owned(name), value: owned(value) },
                    );
                },
            };
            theme = match theme.with(name, color) {
                Some(theme) => theme,
                None => {
                    proof {
                        first_fault_stays(self, settings, n + 1, colors@.len() as int);
                    }
                    return Err(ThemeError::UnknownEntry { name: owned(name) });
                },
            };
            n += 1;
        }
        Ok(theme)
    }

    /// The default colours with colour settings applied on top.
    pub fn from_config(colors: &Vec<(String, String)>) -> (r: Result<Theme, ThemeError>)
        ensures
            match r {
                Ok(theme) => themed("default"@, entries(colors@)) == Ok::<Theme, ThemeFault>(theme),
                Err(e) => themed("default"@, entries(colors@)) == Err::<Theme, ThemeFault>(e@),
            },
    {
        Theme::default().with_colors(colors)
    }

    /// A preset with colour settings applied on top.
    pub fn from_preset(
        preset: &str,
        colors: &Vec<(String, String)>,
    ) -> (r: Result<Theme, ThemeError>)
        ensures
            match r {
                Ok(theme) => themed(preset@, entries(colors@)) == Ok::<Theme, ThemeFault>(theme),
                Err(e) => themed(preset@, entries(colors@)) == Err::<Theme, ThemeFault>(e@),
            },
    {
        match Theme::preset(preset) {
            Some(theme) => theme.with_colors(colors),
            None => Err(ThemeError::UnknownTheme { name: owned(preset) }),
        }
    }
}

/// What is wrong with some of the settings is wrong with all of them.
proof fn first_fault_stays(
    theme: Theme,
    settings: Seq<(Seq<char>, Seq<char>)>,
    n: int,
    m: int,
)
    requires
        0 <= n <= m,
        themed_until(theme, settings, n) is Err,
    ensures
        themed_until(theme, settings, m) == themed_until(theme, settings, n),
    decreases m - n,
{
    if n < m {
        first_fault_stays(theme, settings, n, m - 1);
    }
}

} // verus!
