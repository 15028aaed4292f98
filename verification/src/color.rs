//! Colors of the command-line output: whether they are used, the theme of
//! styles, and the styled text.

use vstd::prelude::*;
use owo_colors::AnsiColors as Owo;
use crate::text::decimal;

verus! {

/// How the user asked for colors.
#[derive(Debug, Clone, Copy, PartialEq, Eq, Structural)]
pub enum ColorChoice {
    Auto,
    Always,
    Never,
}

/// Color configuration resolved from CLI flags and environment variables.
#[derive(Debug, Clone, Copy)]
pub struct ColorConfig {
    pub enabled: bool,
}

/// Whether colors are used: the flag decides, then `NO_COLOR` when it is
/// set and not empty, then whether stdout is a terminal.
pub open spec fn colors_enabled(choice: ColorChoice, no_color: Option<Seq<char>>, stdout_is_terminal: bool) -> bool {
    match choice {
        ColorChoice::Always => true,
        ColorChoice::Never => false,
        ColorChoice::Auto => match no_color {
            Some(v) if v.len() > 0 => false,
            _ => stdout_is_terminal,
        },
    }
}

impl ColorConfig {
    /// Resolve the configuration from the CLI choice, the value of
    /// `NO_COLOR` if it is set, and whether stdout is a terminal.
    pub fn new(choice: ColorChoice, no_color: Option<String>, stdout_is_terminal: bool) -> (r: Self)
        ensures
            r.enabled == colors_enabled(
                choice,
                match no_color {
                    Some(v) => Some(v@),
                    None => None,
                },
                stdout_is_terminal,
            ),
    {
        let enabled = match choice {
            ColorChoice::Always => true,
            ColorChoice::Never => false,
            ColorChoice::Auto => {
                if let Some(val) = &no_color {
                    if !val.as_str().is_empty() {
                        return Self::with_enabled(false);
                    }
                }
                stdout_is_terminal
            },
        };
        Self::with_enabled(enabled)
    }

    /// A configuration with colors on or off.
    pub fn with_enabled(enabled: bool) -> (r: Self)
        ensures
            r.enabled == enabled,
    {
        ColorConfig { enabled }
    }

    /// Returns whether colors should be used.
    pub fn is_enabled(self) -> (r: bool)
        ensures
            r == self.enabled,
    {
        self.enabled
    }
}

/// The eight normal ANSI colors and the terminal's default.
#[derive(Debug, Clone, Copy, PartialEq, Eq, Structural)]
pub enum BaseColor {
    Black,
    Red,
    Green,
    Yellow,
    Blue,
    Magenta,
    Cyan,
    White,
    Default,
}

/// The eight bright ANSI colors.
#[derive(Debug, Clone, Copy, PartialEq, Eq, Structural)]
pub enum BrightColor {
    Black,
    Red,
    Green,
    Yellow,
    Blue,
    Magenta,
    Cyan,
    White,
}

/// An ANSI color.
#[derive(Debug, Clone, Copy, PartialEq, Eq, Structural)]
pub enum AnsiColor {
    Normal(BaseColor),
    Bright(BrightColor),
}

/// A terminal color: an ANSI one or a 24-bit one.
#[derive(Debug, Clone, Copy, PartialEq, Eq, Structural)]
pub enum DynColor {
    Ansi(AnsiColor),
    Rgb(u8, u8, u8),
}

/// The text effect of a style.
#[derive(Debug, Clone, Copy, PartialEq, Eq, Structural)]
pub enum TextEffect {
    Plain,
    Bold,
    Dimmed,
}

/// A style: an optional foreground color and an effect.
#[derive(Debug, Clone, Copy, PartialEq, Eq, Structural)]
pub struct CliStyle {
    pub color: Option<DynColor>,
    pub effect: TextEffect,
}

/// The SGR code of a foreground color, as `owo_colors` writes it: 30 to 37
/// and 39 for the normal colors and the default, 90 to 97 for the bright
/// ones, `38;2;r;g;b` for a 24-bit color.
pub open spec fn fg_code(c: DynColor) -> Seq<char> {
    match c {
        DynColor::Ansi(AnsiColor::Normal(b)) => match b {
            BaseColor::Black => "30"@,
            BaseColor::Red => "31"@,
            BaseColor::Green => "32"@,
            BaseColor::Yellow => "33"@,
            BaseColor::Blue => "34"@,
            BaseColor::Magenta => "35"@,
            BaseColor::Cyan => "36"@,
            BaseColor::White => "37"@,
            BaseColor::Default => "39"@,
        },
        DynColor::Ansi(AnsiColor::Bright(b)) => match b {
            BrightColor::Black => "90"@,
            BrightColor::Red => "91"@,
            BrightColor::Green => "92"@,
            BrightColor::Yellow => "93"@,
            BrightColor::Blue => "94"@,
            BrightColor::Magenta => "95"@,
            BrightColor::Cyan => "96"@,
            BrightColor::White => "97"@,
        },
        DynColor::Rgb(r, g, b) => "38;2;"@ + decimal(r as nat) + ";"@ + decimal(g as nat) + ";"@ + decimal(
            b as nat,
        ),
    }
}

/// The SGR code of an effect: `1` for bold, `2` for dimmed.
pub open spec fn effect_code(e: TextEffect) -> Seq<char> {
    match e {
        TextEffect::Plain => seq![],
        TextEffect::Bold => "1"@,
        TextEffect::Dimmed => "2"@,
    }
}

/// Whether a style writes no escape sequence at all.
pub open spec fn is_plain_style(style: CliStyle) -> bool {
    style.color is None && style.effect == TextEffect::Plain
}

/// The SGR codes of a style, separated by `;`: the color first, then the
/// effect.
pub open spec fn style_codes(style: CliStyle) -> Seq<char> {
    match style.color {
        None => effect_code(style.effect),
        Some(c) => if style.effect == TextEffect::Plain {
            fg_code(c)
        } else {
            fg_code(c) + ";"@ + effect_code(style.effect)
        },
    }
}

/// The text that `owo_colors` writes for `text` in `style` (its `Display`
/// for `Styled`: `fmt_prefix`, the text, `fmt_suffix`): a plain style
/// writes the text alone; any other writes `ESC [`, its codes and `m`, the
/// text, and the reset `ESC [0m`.
pub open spec fn owo_styled(style: CliStyle, text: Seq<char>) -> Seq<char> {
    if is_plain_style(style) {
        text
    } else {
        "\u{1b}["@ + style_codes(style) + "m"@ + text + "\u{1b}[0m"@
    }
}

/// `text` in a style without a color, through `owo_colors`'s
/// `Style::style` and its `Display`: a plain style writes the text alone.
#[verifier::external_body]
fn paint_uncolored(effect: TextEffect, text: &str) -> (r: String)
    ensures
        r@ == owo_styled(CliStyle { color: None, effect }, text@),
        effect == TextEffect::Plain ==> r@ == text@,
{
    let s = owo_colors::Style::new();
    let s = match effect {
        TextEffect::Plain => s,
        TextEffect::Bold => s.bold(),
        TextEffect::Dimmed => s.dimmed(),
    };
    s.style(text).to_string()
}

/// `text` in a 24-bit color, through `owo_colors`'s `Style::style` and its
/// `Display`.
#[verifier::external_body]
fn paint_rgb(r: u8, g: u8, b: u8, effect: TextEffect, text: &str) -> (out: String)
    ensures
        out@ == owo_styled(CliStyle { color: Some(DynColor::Rgb(r, g, b)), effect }, text@),
{
    let s = owo_colors::Style::new().color(owo_colors::DynColors::Rgb(r, g, b));
    let s = match effect {
        TextEffect::Plain => s,
        TextEffect::Bold => s.bold(),
        TextEffect::Dimmed => s.dimmed(),
    };
    s.style(text).to_string()
}

/// `text` in a normal ANSI color, through `owo_colors`'s `Style::style` and
/// its `Display`.
#[verifier::external_body]
fn paint_normal(c: BaseColor, effect: TextEffect, text: &str) -> (r: String)
    ensures
        r@ == owo_styled(CliStyle { color: Some(DynColor::Ansi(AnsiColor::Normal(c))), effect }, text@),
{
    let c = match c {
        BaseColor::Black => Owo::Black, BaseColor::Red => Owo::Red, BaseColor::Green => Owo::Green,
        BaseColor::Yellow => Owo::Yellow, BaseColor::Blue => Owo::Blue, BaseColor::Magenta => Owo::Magenta,
        BaseColor::Cyan => Owo::Cyan, BaseColor::White => Owo::White, BaseColor::Default => Owo::Default,
    };
    let s = owo_colors::Style::new().color(c);
    let s = match effect { TextEffect::Plain => s, TextEffect::Bold => s.bold(), TextEffect::Dimmed => s.dimmed() };
    s.style(text).to_string()
}

/// `text` in a bright ANSI color, through `owo_colors`'s `Style::style` and
/// its `Display`.
#[verifier::external_body]
fn paint_bright(c: BrightColor, effect: TextEffect, text: &str) -> (r: String)
    ensures
        r@ == owo_styled(CliStyle { color: Some(DynColor::Ansi(AnsiColor::Bright(c))), effect }, text@),
{
    let c = match c {
        BrightColor::Black => Owo::BrightBlack, BrightColor::Red => Owo::BrightRed,
        BrightColor::Green => Owo::BrightGreen, BrightColor::Yellow => Owo::BrightYellow,
        BrightColor::Blue => Owo::BrightBlue, BrightColor::Magenta => Owo::BrightMagenta,
        BrightColor::Cyan => Owo::BrightCyan, BrightColor::White => Owo::BrightWhite,
    };
    let s = owo_colors::Style::new().color(c);
    let s = match effect { TextEffect::Plain => s, TextEffect::Bold => s.bold(), TextEffect::Dimmed => s.dimmed() };
    s.style(text).to_string()
}

/// `text` in `style`, as `owo_colors` writes it.
pub fn paint(style: CliStyle, text: &str) -> (r: String)
    ensures
        r@ == owo_styled(style, text@),
        style.color is None && style.effect == TextEffect::Plain ==> r@ == text@,
{
    match style.color {
        None => paint_uncolored(style.effect, text),
        Some(DynColor::Rgb(r, g, b)) => paint_rgb(r, g, b, style.effect, text),
        Some(DynColor::Ansi(AnsiColor::Normal(c))) => paint_normal(c, style.effect, text),
        Some(DynColor::Ansi(AnsiColor::Bright(c))) => paint_bright(c, style.effect, text),
    }
}

/// A style with a color and no effect.
pub open spec fn colored(c: DynColor) -> CliStyle {
    CliStyle { color: Some(c), effect: TextEffect::Plain }
}

/// A normal ANSI color.
pub open spec fn normal(c: BaseColor) -> DynColor {
    DynColor::Ansi(AnsiColor::Normal(c))
}

fn style_of(c: DynColor, effect: TextEffect) -> (r: CliStyle)
    ensures
        r == (CliStyle { color: Some(c), effect }),
{
    CliStyle { color: Some(c), effect }
}

/// The styles of the command-line output.
#[derive(Clone, Copy, PartialEq, Eq, Structural)]
pub struct CliTheme {
    pub operation: CliStyle,
    pub path: CliStyle,
    pub skip: CliStyle,
    pub hook_type: CliStyle,
    pub hook_description: CliStyle,
    pub hook_arrow: CliStyle,
    pub hook_running: CliStyle,
    pub success_label: CliStyle,
    pub failure_label: CliStyle,
    pub error: CliStyle,
    pub warning: CliStyle,
    pub exit_code: CliStyle,
    pub header: CliStyle,
    pub branch: CliStyle,
    pub hash: CliStyle,
    pub diff_removed: CliStyle,
    pub diff_added: CliStyle,
    pub dimmed: CliStyle,
}

/// The default theme.
pub open spec fn default_cli_theme() -> CliTheme {
    CliTheme {
        operation: colored(normal(BaseColor::Green)),
        path: colored(normal(BaseColor::Cyan)),
        skip: colored(normal(BaseColor::Yellow)),
        hook_type: colored(normal(BaseColor::Magenta)),
        hook_description: colored(normal(BaseColor::Green)),
        hook_arrow: CliStyle { color: None, effect: TextEffect::Dimmed },
        hook_running: colored(normal(BaseColor::Green)),
        success_label: colored(normal(BaseColor::Green)),
        failure_label: colored(normal(BaseColor::Red)),
        error: colored(normal(BaseColor::Red)),
        warning: CliStyle { color: Some(normal(BaseColor::Yellow)), effect: TextEffect::Bold },
        exit_code: colored(normal(BaseColor::Red)),
        header: CliStyle { color: Some(normal(BaseColor::White)), effect: TextEffect::Bold },
        branch: colored(normal(BaseColor::Magenta)),
        hash: colored(normal(BaseColor::Yellow)),
        diff_removed: colored(normal(BaseColor::Red)),
        diff_added: colored(normal(BaseColor::Green)),
        dimmed: CliStyle { color: None, effect: TextEffect::Dimmed },
    }
}

impl CliTheme {
    /// The default theme.
    pub fn default() -> (r: Self)
        ensures
            r == default_cli_theme(),
    {
        let green = style_of(DynColor::Ansi(AnsiColor::Normal(BaseColor::Green)), TextEffect::Plain);
        let red = style_of(DynColor::Ansi(AnsiColor::Normal(BaseColor::Red)), TextEffect::Plain);
        let yellow = style_of(DynColor::Ansi(AnsiColor::Normal(BaseColor::Yellow)), TextEffect::Plain);
        let magenta = style_of(DynColor::Ansi(AnsiColor::Normal(BaseColor::Magenta)), TextEffect::Plain);
        let dim = CliStyle { color: None, effect: TextEffect::Dimmed };
        CliTheme {
            operation: green,
            path: style_of(DynColor::Ansi(AnsiColor::Normal(BaseColor::Cyan)), TextEffect::Plain),
            skip: yellow,
            hook_type: magenta,
            hook_description: green,
            hook_arrow: dim,
            hook_running: green,
            success_label: green,
            failure_label: red,
            error: red,
            warning: style_of(DynColor::Ansi(AnsiColor::Normal(BaseColor::Yellow)), TextEffect::Bold),
            exit_code: red,
            header: style_of(DynColor::Ansi(AnsiColor::Normal(BaseColor::White)), TextEffect::Bold),
            branch: magenta,
            hash: yellow,
            diff_removed: red,
            diff_added: green,
            dimmed: dim,
        }
    }
}

/// A named color of the configuration.
#[derive(Debug, Clone, Copy, PartialEq, Eq, Structural)]
pub enum UiColorName {
    Default,
    Black,
    Red,
    Green,
    Yellow,
    Blue,
    Magenta,
    Cyan,
    Gray,
    DarkGray,
    LightRed,
    LightGreen,
    LightYellow,
    LightBlue,
    LightMagenta,
    LightCyan,
    White,
}

/// A color of the configuration: a name or an RGB triple.
#[derive(Debug, Clone, Copy, PartialEq, Eq, Structural)]
pub enum UiColor {
    Named(UiColorName),
    Rgb(u8, u8, u8),
}

/// The colors a configuration may set; each one left unset keeps the
/// theme's default.
#[derive(Debug, Clone, Copy, Default, PartialEq, Eq, Structural)]
pub struct UiColors {
    pub border: Option<UiColor>,
    pub text: Option<UiColor>,
    pub accent: Option<UiColor>,
    pub header: Option<UiColor>,
    pub footer: Option<UiColor>,
    pub title: Option<UiColor>,
    pub label: Option<UiColor>,
    pub muted: Option<UiColor>,
    pub disabled: Option<UiColor>,
    pub search: Option<UiColor>,
    pub preview: Option<UiColor>,
    pub selection_bg: Option<UiColor>,
    pub selection_fg: Option<UiColor>,
    pub warning: Option<UiColor>,
    pub error: Option<UiColor>,
}

/// The terminal color of a named configuration color.
pub open spec fn ansi_of_name(name: UiColorName) -> AnsiColor {
    match name {
        UiColorName::Default => AnsiColor::Normal(BaseColor::Default),
        UiColorName::Black => AnsiColor::Normal(BaseColor::Black),
        UiColorName::Red => AnsiColor::Normal(BaseColor::Red),
        UiColorName::Green => AnsiColor::Normal(BaseColor::Green),
        UiColorName::Yellow => AnsiColor::Normal(BaseColor::Yellow),
        UiColorName::Blue => AnsiColor::Normal(BaseColor::Blue),
        UiColorName::Magenta => AnsiColor::Normal(BaseColor::Magenta),
        UiColorName::Cyan => AnsiColor::Normal(BaseColor::Cyan),
        UiColorName::Gray => AnsiColor::Bright(BrightColor::Black),
        UiColorName::DarkGray => AnsiColor::Normal(BaseColor::Black),
        UiColorName::LightRed => AnsiColor::Bright(BrightColor::Red),
        UiColorName::LightGreen => AnsiColor::Bright(BrightColor::Green),
        UiColorName::LightYellow => AnsiColor::Bright(BrightColor::Yellow),
        UiColorName::LightBlue => AnsiColor::Bright(BrightColor::Blue),
        UiColorName::LightMagenta => AnsiColor::Bright(BrightColor::Magenta),
        UiColorName::LightCyan => AnsiColor::Bright(BrightColor::Cyan),
        UiColorName::White => AnsiColor::Normal(BaseColor::White),
    }
}

/// The terminal color of a configuration color.
pub open spec fn dyn_color_of(color: UiColor) -> DynColor {
    match color {
        UiColor::Rgb(r, g, b) => DynColor::Rgb(r, g, b),
        UiColor::Named(name) => DynColor::Ansi(ansi_of_name(name)),
    }
}

/// The terminal color of a configuration color.
pub fn to_dyn_color(color: UiColor) -> (r: DynColor)
    ensures
        r == dyn_color_of(color),
{
    match color {
        UiColor::Rgb(r, g, b) => DynColor::Rgb(r, g, b),
        UiColor::Named(name) => {
            let ansi = match name {
                UiColorName::Default => AnsiColor::Normal(BaseColor::Default),
                UiColorName::Black => AnsiColor::Normal(BaseColor::Black),
                UiColorName::Red => AnsiColor::Normal(BaseColor::Red),
                UiColorName::Green => AnsiColor::Normal(BaseColor::Green),
                UiColorName::Yellow => AnsiColor::Normal(BaseColor::Yellow),
                UiColorName::Blue => AnsiColor::Normal(BaseColor::Blue),
                UiColorName::Magenta => AnsiColor::Normal(BaseColor::Magenta),
                UiColorName::Cyan => AnsiColor::Normal(BaseColor::Cyan),
                UiColorName::Gray => AnsiColor::Bright(BrightColor::Black),
                UiColorName::DarkGray => AnsiColor::Normal(BaseColor::Black),
                UiColorName::LightRed => AnsiColor::Bright(BrightColor::Red),
                UiColorName::LightGreen => AnsiColor::Bright(BrightColor::Green),
                UiColorName::LightYellow => AnsiColor::Bright(BrightColor::Yellow),
                UiColorName::LightBlue => AnsiColor::Bright(BrightColor::Blue),
                UiColorName::LightMagenta => AnsiColor::Bright(BrightColor::Magenta),
                UiColorName::LightCyan => AnsiColor::Bright(BrightColor::Cyan),
                UiColorName::White => AnsiColor::Normal(BaseColor::White),
            };
            DynColor::Ansi(ansi)
        },
    }
}

/// `current`, or a style of color `c` with `effect` when `c` is set.
pub open spec fn override_style(current: CliStyle, c: Option<UiColor>, effect: TextEffect) -> CliStyle {
    match c {
        Some(color) => CliStyle { color: Some(dyn_color_of(color)), effect },
        None => current,
    }
}

/// The theme with the configured colors: accent for operations, paths,
/// running hooks, success and additions; warning for skips, warnings and
/// hashes; error for failures, errors, exit codes and removals; title for
/// hook types; label for branches; text for hook descriptions; header for
/// headers; muted for arrows and dimmed text.
pub open spec fn cli_theme_from(colors: UiColors) -> CliTheme {
    let d = default_cli_theme();
    CliTheme {
        operation: override_style(d.operation, colors.accent, TextEffect::Plain),
        path: override_style(d.path, colors.accent, TextEffect::Plain),
        skip: override_style(d.skip, colors.warning, TextEffect::Plain),
        hook_type: override_style(d.hook_type, colors.title, TextEffect::Plain),
        hook_description: override_style(d.hook_description, colors.text, TextEffect::Plain),
        hook_arrow: override_style(d.hook_arrow, colors.muted, TextEffect::Dimmed),
        hook_running: override_style(d.hook_running, colors.accent, TextEffect::Plain),
        success_label: override_style(d.success_label, colors.accent, TextEffect::Plain),
        failure_label: override_style(d.failure_label, colors.error, TextEffect::Plain),
        error: override_style(d.error, colors.error, TextEffect::Plain),
        warning: override_style(d.warning, colors.warning, TextEffect::Bold),
        exit_code: override_style(d.exit_code, colors.error, TextEffect::Plain),
        header: override_style(d.header, colors.header, TextEffect::Bold),
        branch: override_style(d.branch, colors.label, TextEffect::Plain),
        hash: override_style(d.hash, colors.warning, TextEffect::Plain),
        diff_removed: override_style(d.diff_removed, colors.error, TextEffect::Plain),
        diff_added: override_style(d.diff_added, colors.accent, TextEffect::Plain),
        dimmed: override_style(d.dimmed, colors.muted, TextEffect::Dimmed),
    }
}

impl CliTheme {
    /// The theme with the configured colors over the default one.
    pub fn from_colors(colors: &UiColors) -> (r: Self)
        ensures
            r == cli_theme_from(*colors),
    {
        let mut theme = CliTheme::default();
        if let Some(color) = colors.accent {
            let style = style_of(to_dyn_color(color), TextEffect::Plain);
            theme.operation = style;
            theme.path = style;
            theme.hook_running = style;
            theme.success_label = style;
            theme.diff_added = style;
        }
        if let Some(color) = colors.warning {
            theme.skip = style_of(to_dyn_color(color), TextEffect::Plain);
            theme.warning = style_of(to_dyn_color(color), TextEffect::Bold);
            theme.hash = style_of(to_dyn_color(color), TextEffect::Plain);
        }
        if let Some(color) = colors.error {
            theme.failure_label = style_of(to_dyn_color(color), TextEffect::Plain);
            theme.error = style_of(to_dyn_color(color), TextEffect::Plain);
            theme.exit_code = style_of(to_dyn_color(color), TextEffect::Plain);
            theme.diff_removed = style_of(to_dyn_color(color), TextEffect::Plain);
        }
        if let Some(color) = colors.title {
            theme.hook_type = style_of(to_dyn_color(color), TextEffect::Plain);
        }
        if let Some(color) = colors.label {
            theme.branch = style_of(to_dyn_color(color), TextEffect::Plain);
        }
        if let Some(color) = colors.text {
            theme.hook_description = style_of(to_dyn_color(color), TextEffect::Plain);
        }
        if let Some(color) = colors.header {
            theme.header = style_of(to_dyn_color(color), TextEffect::Bold);
        }
        if let Some(color) = colors.muted {
            theme.hook_arrow = style_of(to_dyn_color(color), TextEffect::Dimmed);
            theme.dimmed = style_of(to_dyn_color(color), TextEffect::Dimmed);
        }
        theme
    }
}

/// The semantic styles of the command-line output, applied when colors are
/// enabled.
#[derive(Clone, Copy)]
pub struct ColorScheme {
    pub theme: CliTheme,
    pub enabled: bool,
}

impl ColorScheme {
    /// `text` as a method of the scheme gives it for `style`: styled when
    /// colors are enabled, unchanged otherwise.
    pub open spec fn styled(&self, style: CliStyle, text: Seq<char>) -> Seq<char> {
        if self.enabled {
            owo_styled(style, text)
        } else {
            text
        }
    }

    /// The scheme with the default theme.
    pub fn new(config: ColorConfig) -> (r: Self)
        ensures
            r.theme == default_cli_theme(),
            r.enabled == config.enabled,
    {
        ColorScheme { theme: CliTheme::default(), enabled: config.is_enabled() }
    }

    fn apply_style(&self, style: CliStyle, text: &str) -> (r: String)
        ensures
            r@ == self.styled(style, text@),
    {
        if self.enabled {
            paint(style, text)
        } else {
            text.to_owned()
        }
    }

    /// `text` in the operation style.
    pub fn operation(&self, text: &str) -> (r: String)
        ensures
            r@ == self.styled(self.theme.operation, text@),
    {
        self.apply_style(self.theme.operation, text)
    }

    /// `text` in the path style.
    pub fn path(&self, text: &str) -> (r: String)
        ensures
            r@ == self.styled(self.theme.path, text@),
    {
        self.apply_style(self.theme.path, text)
    }

    /// `text` in the skip style.
    pub fn skip(&self, text: &str) -> (r: String)
        ensures
            r@ == self.styled(self.theme.skip, text@),
    {
        self.apply_style(self.theme.skip, text)
    }

    /// `text` in the hook type style.
    pub fn hook_type(&self, text: &str) -> (r: String)
        ensures
            r@ == self.styled(self.theme.hook_type, text@),
    {
        self.apply_style(self.theme.hook_type, text)
    }

    /// `text` in the hook description style.
    pub fn hook_description(&self, text: &str) -> (r: String)
        ensures
            r@ == self.styled(self.theme.hook_description, text@),
    {
        self.apply_style(self.theme.hook_description, text)
    }

    /// `text` in the hook arrow style.
    pub fn hook_arrow(&self, text: &str) -> (r: String)
        ensures
            r@ == self.styled(self.theme.hook_arrow, text@),
    {
        self.apply_style(self.theme.hook_arrow, text)
    }

    /// `text` in the hook running style.
    pub fn hook_running(&self, text: &str) -> (r: String)
        ensures
            r@ == self.styled(self.theme.hook_running, text@),
    {
        self.apply_style(self.theme.hook_running, text)
    }

    /// `text` in the success label style.
    pub fn success_label(&self, text: &str) -> (r: String)
        ensures
            r@ == self.styled(self.theme.success_label, text@),
    {
        self.apply_style(self.theme.success_label, text)
    }

    /// `text` in the failure label style.
    pub fn failure_label(&self, text: &str) -> (r: String)
        ensures
            r@ == self.styled(self.theme.failure_label, text@),
    {
        self.apply_style(self.theme.failure_label, text)
    }

    /// `text` in the error style.
    pub fn error(&self, text: &str) -> (r: String)
        ensures
            r@ == self.styled(self.theme.error, text@),
    {
        self.apply_style(self.theme.error, text)
    }

    /// `text` in the warning style.
    pub fn warning(&self, text: &str) -> (r: String)
        ensures
            r@ == self.styled(self.theme.warning, text@),
    {
        self.apply_style(self.theme.warning, text)
    }

    /// `text` in the exit code style.
    pub fn exit_code(&self, text: &str) -> (r: String)
        ensures
            r@ == self.styled(self.theme.exit_code, text@),
    {
        self.apply_style(self.theme.exit_code, text)
    }

    /// `text` in the header style.
    pub fn header(&self, text: &str) -> (r: String)
        ensures
            r@ == self.styled(self.theme.header, text@),
    {
        self.apply_style(self.theme.header, text)
    }

    /// `text` in the branch style.
    pub fn branch(&self, text: &str) -> (r: String)
        ensures
            r@ == self.styled(self.theme.branch, text@),
    {
        self.apply_style(self.theme.branch, text)
    }

    /// `text` in the hash style.
    pub fn hash(&self, text: &str) -> (r: String)
        ensures
            r@ == self.styled(self.theme.hash, text@),
    {
        self.apply_style(self.theme.hash, text)
    }

    /// `text` in the diff removed style.
    pub fn diff_removed(&self, text: &str) -> (r: String)
        ensures
            r@ == self.styled(self.theme.diff_removed, text@),
    {
        self.apply_style(self.theme.diff_removed, text)
    }

    /// `text` in the diff added style.
    pub fn diff_added(&self, text: &str) -> (r: String)
        ensures
            r@ == self.styled(self.theme.diff_added, text@),
    {
        self.apply_style(self.theme.diff_added, text)
    }

    /// `text` in the dimmed style.
    pub fn dimmed(&self, text: &str) -> (r: String)
        ensures
            r@ == self.styled(self.theme.dimmed, text@),
    {
        self.apply_style(self.theme.dimmed, text)
    }
}

/// Use the configured colors from now on.
pub fn set_cli_theme(scheme: &mut ColorScheme, colors: &UiColors)
    ensures
        final(scheme).theme == cli_theme_from(*colors),
        final(scheme).enabled == old(scheme).enabled,
{
    scheme.theme = CliTheme::from_colors(colors);
}

/// With colors disabled, every style of a scheme leaves the text as it is.
pub proof fn law_disabled_colors_leave_text(scheme: ColorScheme, style: CliStyle, text: Seq<char>)
    requires
        !scheme.enabled,
    ensures
        scheme.styled(style, text) == text,
{
}

/// Colors are on exactly when asked for, or, on `auto`, when `NO_COLOR` is
/// unset or empty and stdout is a terminal.
pub proof fn law_color_choice(choice: ColorChoice, no_color: Option<Seq<char>>, tty: bool)
    ensures
        colors_enabled(choice, no_color, tty) <==> (choice == ColorChoice::Always || (choice
            == ColorChoice::Auto && tty && !(no_color matches Some(v) && v.len() > 0))),
{
}


/// With colors on, a style that has a color or an effect changes the text:
/// it is written between an escape sequence and a reset.
pub proof fn law_enabled_colors_change_text(scheme: ColorScheme, style: CliStyle, text: Seq<char>)
    requires
        scheme.enabled,
        !is_plain_style(style),
    ensures
        scheme.styled(style, text) != text,
        scheme.styled(style, text).len() > text.len(),
{
    reveal_strlit("\u{1b}[");
    reveal_strlit("m");
    reveal_strlit("\u{1b}[0m");
}

/// Whether every style of a theme has a color or an effect.
pub open spec fn all_styles_visible(t: CliTheme) -> bool {
    &&& !is_plain_style(t.operation)
    &&& !is_plain_style(t.path)
    &&& !is_plain_style(t.skip)
    &&& !is_plain_style(t.hook_type)
    &&& !is_plain_style(t.hook_description)
    &&& !is_plain_style(t.hook_arrow)
    &&& !is_plain_style(t.hook_running)
    &&& !is_plain_style(t.success_label)
    &&& !is_plain_style(t.failure_label)
    &&& !is_plain_style(t.error)
    &&& !is_plain_style(t.warning)
    &&& !is_plain_style(t.exit_code)
    &&& !is_plain_style(t.header)
    &&& !is_plain_style(t.branch)
    &&& !is_plain_style(t.hash)
    &&& !is_plain_style(t.diff_removed)
    &&& !is_plain_style(t.diff_added)
    &&& !is_plain_style(t.dimmed)
}

/// Every style of a theme, the default one or one made from configured
/// colors, has a color or an effect, so with colors on each changes the
/// text.
pub proof fn law_theme_styles_are_visible(colors: UiColors)
    ensures
        all_styles_visible(default_cli_theme()),
        all_styles_visible(cli_theme_from(colors)),
{
}

/// With colors on, a skip is written as a hash is, and a warning differs
/// from a skip.
pub open spec fn skip_and_warning_apart(t: CliTheme, text: Seq<char>) -> bool {
    let scheme = ColorScheme { theme: t, enabled: true };
    &&& scheme.styled(t.skip, text) == scheme.styled(t.hash, text)
    &&& scheme.styled(t.warning, text) != scheme.styled(t.skip, text)
}

proof fn lemma_bold_adds_codes(c: DynColor, text: Seq<char>)
    ensures
        owo_styled(CliStyle { color: Some(c), effect: TextEffect::Bold }, text).len() == owo_styled(
            CliStyle { color: Some(c), effect: TextEffect::Plain },
            text,
        ).len() + 2,
{
    reveal_strlit(";");
    reveal_strlit("1");
}

/// In the default theme and in one made from configured colors, a skip is
/// written as a hash is, and with colors on a warning differs from a skip:
/// it adds bold to the same color.
pub proof fn law_warning_differs_from_skip(colors: UiColors, text: Seq<char>)
    ensures
        skip_and_warning_apart(default_cli_theme(), text),
        skip_and_warning_apart(cli_theme_from(colors), text),
{
    let d = default_cli_theme();
    lemma_bold_adds_codes(d.skip.color.unwrap(), text);
    let t = cli_theme_from(colors);
    lemma_bold_adds_codes(t.skip.color.unwrap(), text);
    assert(t.warning == CliStyle { color: t.skip.color, effect: TextEffect::Bold });
}

} // verus!
