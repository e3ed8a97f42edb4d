//! Terminal styles: format flags, colors, and the builder methods that set them.
use vstd::prelude::*;

verus! {

/// A terminal color, as used for foreground or background.
#[derive(Clone, Copy, Debug, PartialEq, Eq, Structural)]
pub enum Color {
    Black,
    DarkGray,
    Red,
    LightRed,
    Green,
    LightGreen,
    Yellow,
    LightYellow,
    Blue,
    LightBlue,
    Purple,
    LightPurple,
    Magenta,
    LightMagenta,
    Cyan,
    LightCyan,
    White,
    LightGray,
    /// One of the 256 indexed colors.
    Fixed(u8),
    /// A 24-bit color.
    Rgb(u8, u8, u8),
    /// The terminal's default color.
    Default,
}

/// The independent text attributes a style can switch on.
#[derive(Clone, Copy, Debug, PartialEq, Eq, Structural)]
pub struct FormatFlags {
    pub bold: bool,
    pub dimmed: bool,
    pub italic: bool,
    pub underline: bool,
    pub blink: bool,
    pub reverse: bool,
    pub hidden: bool,
    pub strikethrough: bool,
}

/// The optional foreground and background colors of a style.
#[derive(Clone, Copy, Debug, PartialEq, Eq, Structural)]
pub struct Coloring {
    pub fg: Option<Color>,
    pub bg: Option<Color>,
}

/// A terminal rendering state: format flags, colors, and whether a full reset
/// has to be sent before the style is applied.
#[derive(Clone, Copy, Debug, PartialEq, Eq, Structural)]
pub struct Style {
    pub reset_before_style: bool,
    pub formats: FormatFlags,
    pub coloring: Coloring,
}

impl FormatFlags {
    /// No attribute set.
    pub open spec fn spec_empty() -> FormatFlags {
        FormatFlags {
            bold: false,
            dimmed: false,
            italic: false,
            underline: false,
            blink: false,
            reverse: false,
            hidden: false,
            strikethrough: false,
        }
    }

    pub fn empty() -> (r: FormatFlags)
        ensures
            r == FormatFlags::spec_empty(),
    {
        FormatFlags {
            bold: false,
            dimmed: false,
            italic: false,
            underline: false,
            blink: false,
            reverse: false,
            hidden: false,
            strikethrough: false,
        }
    }

    pub open spec fn spec_is_empty(&self) -> bool {
        *self == FormatFlags::spec_empty()
    }

    /// The attributes set in either.
    pub open spec fn spec_or(self, o: FormatFlags) -> FormatFlags {
        FormatFlags {
            bold: self.bold || o.bold,
            dimmed: self.dimmed || o.dimmed,
            italic: self.italic || o.italic,
            underline: self.underline || o.underline,
            blink: self.blink || o.blink,
            reverse: self.reverse || o.reverse,
            hidden: self.hidden || o.hidden,
            strikethrough: self.strikethrough || o.strikethrough,
        }
    }

    /// The attributes set in either.
    pub fn or(self, o: FormatFlags) -> (r: FormatFlags)
        ensures
            r == self.spec_or(o),
    {
        FormatFlags {
            bold: self.bold || o.bold,
            dimmed: self.dimmed || o.dimmed,
            italic: self.italic || o.italic,
            underline: self.underline || o.underline,
            blink: self.blink || o.blink,
            reverse: self.reverse || o.reverse,
            hidden: self.hidden || o.hidden,
            strikethrough: self.strikethrough || o.strikethrough,
        }
    }

    /// Whether no attribute is set.
    #[verifier::when_used_as_spec(spec_is_empty)]
    pub fn is_empty(&self) -> (r: bool)
        ensures
            r == self.spec_is_empty(),
    {
        !(self.bold || self.dimmed || self.italic || self.underline || self.blink || self.reverse
            || self.hidden || self.strikethrough)
    }
}


impl Coloring {
    /// Whether neither color is set.
    pub open spec fn spec_is_empty(&self) -> bool {
        self.fg.is_none() && self.bg.is_none()
    }
}

impl Style {
    /// The plain style: no attribute, no color, no reset.
    pub open spec fn plain() -> Style {
        Style {
            reset_before_style: false,
            formats: FormatFlags::spec_empty(),
            coloring: Coloring { fg: None, bg: None },
        }
    }

    /// A plain style.
    pub fn new() -> (r: Style)
        ensures
            r == Style::plain(),
    {
        Style {
            reset_before_style: false,
            formats: FormatFlags::empty(),
            coloring: Coloring { fg: None, bg: None },
        }
    }

    pub open spec fn spec_is_empty(&self) -> bool {
        self.formats.spec_is_empty() && self.coloring.spec_is_empty()
    }

    /// Whether the style sets no attribute and no color; a forced reset is not
    /// looked at.
    #[verifier::when_used_as_spec(spec_is_empty)]
    pub fn is_empty(&self) -> (r: bool)
        ensures
            r == self.spec_is_empty(),
    {
        self.formats.is_empty() && self.coloring.fg.is_none() && self.coloring.bg.is_none()
    }

    pub open spec fn spec_is_plain(&self) -> bool {
        *self == Style::plain()
    }

    /// Whether this is the plain style, the one style whose prefix is empty.
    #[verifier::when_used_as_spec(spec_is_plain)]
    pub fn is_plain(&self) -> (r: bool)
        ensures
            r == self.spec_is_plain(),
    {
        !self.reset_before_style && self.is_empty()
    }

    /// Whether a full reset is sent before this style is applied.
    pub fn is_reset_before_style(&self) -> (r: bool)
        ensures
            r == self.reset_before_style,
    {
        self.reset_before_style
    }

    /// The same style, with a full reset sent before it.
    pub fn reset_before_style(self) -> (r: Style)
        ensures
            r == (Style { reset_before_style: true, ..self }),
    {
        Style { reset_before_style: true, ..self }
    }

    /// The same style with the given attributes switched on as well.
    pub fn insert_formats(self, f: FormatFlags) -> (r: Style)
        ensures
            r == (Style { formats: self.formats.spec_or(f), ..self }),
    {
        Style { formats: self.formats.or(f), ..self }
    }

    /// The same style with its foreground replaced.
    pub fn set_fg(self, fg: Option<Color>) -> (r: Style)
        ensures
            r == (Style { coloring: Coloring { fg, ..self.coloring }, ..self }),
    {
        Style { coloring: Coloring { fg, ..self.coloring }, ..self }
    }

    /// The same style with its background replaced.
    pub fn set_bg(self, bg: Option<Color>) -> (r: Style)
        ensures
            r == (Style { coloring: Coloring { bg, ..self.coloring }, ..self }),
    {
        Style { coloring: Coloring { bg, ..self.coloring }, ..self }
    }

    /// The same style with the given foreground color.
    pub fn fg(self, color: Color) -> (r: Style)
        ensures
            r == (Style { coloring: Coloring { fg: Some(color), ..self.coloring }, ..self }),
    {
        self.set_fg(Some(color))
    }

    /// The same style with the given background color.
    pub fn on(self, color: Color) -> (r: Style)
        ensures
            r == (Style { coloring: Coloring { bg: Some(color), ..self.coloring }, ..self }),
    {
        self.set_bg(Some(color))
    }

    /// The same style, bold.
    pub fn bold(self) -> (r: Style)
        ensures
            r == (Style { formats: FormatFlags { bold: true, ..self.formats }, ..self }),
    {
        Style { formats: FormatFlags { bold: true, ..self.formats }, ..self }
    }

    /// The same style, dimmed.
    pub fn dimmed(self) -> (r: Style)
        ensures
            r == (Style { formats: FormatFlags { dimmed: true, ..self.formats }, ..self }),
    {
        Style { formats: FormatFlags { dimmed: true, ..self.formats }, ..self }
    }

    /// The same style, italic.
    pub fn italic(self) -> (r: Style)
        ensures
            r == (Style { formats: FormatFlags { italic: true, ..self.formats }, ..self }),
    {
        Style { formats: FormatFlags { italic: true, ..self.formats }, ..self }
    }

    /// The same style, underlined.
    pub fn underline(self) -> (r: Style)
        ensures
            r == (Style { formats: FormatFlags { underline: true, ..self.formats }, ..self }),
    {
        Style { formats: FormatFlags { underline: true, ..self.formats }, ..self }
    }

    /// The same style, blinking.
    pub fn blink(self) -> (r: Style)
        ensures
            r == (Style { formats: FormatFlags { blink: true, ..self.formats }, ..self }),
    {
        Style { formats: FormatFlags { blink: true, ..self.formats }, ..self }
    }

    /// The same style, with foreground and background swapped.
    pub fn reverse(self) -> (r: Style)
        ensures
            r == (Style { formats: FormatFlags { reverse: true, ..self.formats }, ..self }),
    {
        Style { formats: FormatFlags { reverse: true, ..self.formats }, ..self }
    }

    /// The same style, hidden.
    pub fn hidden(self) -> (r: Style)
        ensures
            r == (Style { formats: FormatFlags { hidden: true, ..self.formats }, ..self }),
    {
        Style { formats: FormatFlags { hidden: true, ..self.formats }, ..self }
    }

    /// The same style, struck through.
    pub fn strikethrough(self) -> (r: Style)
        ensures
            r == (Style { formats: FormatFlags { strikethrough: true, ..self.formats }, ..self }),
    {
        Style { formats: FormatFlags { strikethrough: true, ..self.formats }, ..self }
    }
}

impl Default for Style {
    fn default() -> (r: Style)
        ensures
            r == Style::plain(),
    {
        Style::new()
    }
}

impl Color {
    /// The style with this color as foreground and nothing else.
    pub fn normal(self) -> (r: Style)
        ensures
            r == (Style { coloring: Coloring { fg: Some(self), bg: None }, ..Style::plain() }),
    {
        Style::new().fg(self)
    }

    /// The style with this foreground, bold.
    pub fn bold(self) -> (r: Style)
        ensures
            r == (Style { formats: FormatFlags { bold: true, ..FormatFlags::spec_empty() }, ..self.spec_normal() }),
    {
        self.normal().bold()
    }

    /// The style with this foreground, dimmed.
    pub fn dimmed(self) -> (r: Style)
        ensures
            r == (Style { formats: FormatFlags { dimmed: true, ..FormatFlags::spec_empty() }, ..self.spec_normal() }),
    {
        self.normal().dimmed()
    }

    /// The style with this foreground, italic.
    pub fn italic(self) -> (r: Style)
        ensures
            r == (Style { formats: FormatFlags { italic: true, ..FormatFlags::spec_empty() }, ..self.spec_normal() }),
    {
        self.normal().italic()
    }

    /// The style with this foreground, underlined.
    pub fn underline(self) -> (r: Style)
        ensures
            r == (Style { formats: FormatFlags { underline: true, ..FormatFlags::spec_empty() }, ..self.spec_normal() }),
    {
        self.normal().underline()
    }

    /// The style with this foreground, blinking.
    pub fn blink(self) -> (r: Style)
        ensures
            r == (Style { formats: FormatFlags { blink: true, ..FormatFlags::spec_empty() }, ..self.spec_normal() }),
    {
        self.normal().blink()
    }

    /// The style with this foreground, reversed.
    pub fn reverse(self) -> (r: Style)
        ensures
            r == (Style { formats: FormatFlags { reverse: true, ..FormatFlags::spec_empty() }, ..self.spec_normal() }),
    {
        self.normal().reverse()
    }

    /// The style with this foreground, hidden.
    pub fn hidden(self) -> (r: Style)
        ensures
            r == (Style { formats: FormatFlags { hidden: true, ..FormatFlags::spec_empty() }, ..self.spec_normal() }),
    {
        self.normal().hidden()
    }

    /// The style with this foreground, struck through.
    pub fn strikethrough(self) -> (r: Style)
        ensures
            r == (Style { formats: FormatFlags { strikethrough: true, ..FormatFlags::spec_empty() }, ..self.spec_normal() }),
    {
        self.normal().strikethrough()
    }

    /// The style with this foreground and the given background.
    pub fn on(self, background: Color) -> (r: Style)
        ensures
            r == (Style { coloring: Coloring { fg: Some(self), bg: Some(background) }, ..Style::plain() }),
    {
        self.normal().on(background)
    }

    /// The style with this color as foreground and nothing else.
    pub open spec fn spec_normal(self) -> Style {
        Style { coloring: Coloring { fg: Some(self), bg: None }, ..Style::plain() }
    }
}

} // verus!
