//! Color themes: each theme gives every visual role of the interface a style.
use vstd::prelude::*;

verus! {

/// The color themes a user can choose.
#[derive(Debug, Clone, Copy, PartialEq, Eq, Structural)]
pub enum ThemeVariant {
    /// Use the terminal's own colors.
    Inherit,
    OneDark,
    SkyOrange,
}

impl Default for ThemeVariant {
    fn default() -> (r: Self)
        ensures
            r == ThemeVariant::Inherit,
    {
        ThemeVariant::Inherit
    }
}

impl ThemeVariant {
    /// The name the configuration file uses for the theme.
    pub fn config_name(&self) -> (r: &'static str)
        ensures
            *self == ThemeVariant::Inherit ==> r@ == "inherit"@,
            *self == ThemeVariant::OneDark ==> r@ == "onedark"@,
            *self == ThemeVariant::SkyOrange ==> r@ == "sky-orange"@,
    {
        match self {
            ThemeVariant::Inherit => "inherit",
            ThemeVariant::OneDark => "onedark",
            ThemeVariant::SkyOrange => "sky-orange",
        }
    }

    /// The theme that follows this one when cycling through themes.
    pub fn next(&self) -> (r: ThemeVariant)
        ensures
            r == next_theme(*self),
    {
        match self {
            ThemeVariant::Inherit => ThemeVariant::OneDark,
            ThemeVariant::OneDark => ThemeVariant::SkyOrange,
            ThemeVariant::SkyOrange => ThemeVariant::Inherit,
        }
    }
}

pub open spec fn next_theme(t: ThemeVariant) -> ThemeVariant {
    match t {
        ThemeVariant::Inherit => ThemeVariant::OneDark,
        ThemeVariant::OneDark => ThemeVariant::SkyOrange,
        ThemeVariant::SkyOrange => ThemeVariant::Inherit,
    }
}

/// Cycling three times through the themes comes back to the start.
pub proof fn law_theme_cycle(t: ThemeVariant)
    ensures
        next_theme(next_theme(next_theme(t))) == t,
        next_theme(t) != t,
{
}

/// A terminal color.
#[derive(Debug, Clone, Copy, PartialEq, Eq, Structural)]
pub enum Color {
    White,
    Rgb(u8, u8, u8),
}

/// A text style: optional foreground and background colors and modifiers.
#[derive(Debug, Clone, Copy, PartialEq, Eq, Structural)]
pub struct StyleSpec {
    pub fg: Option<Color>,
    pub bg: Option<Color>,
    pub bold: bool,
    pub dim: bool,
    pub reversed: bool,
}

/// The visual roles that the interface styles.
#[derive(Debug, Clone, Copy, PartialEq, Eq, Structural)]
pub enum StyleRole {
    Normal,
    Selected,
    Dim,
    Accent,
    Border,
    Error,
    Success,
    Header,
    BlockBackground,
}

pub open spec fn plain() -> StyleSpec {
    StyleSpec { fg: None, bg: None, bold: false, dim: false, reversed: false }
}

pub open spec fn fg_bg(fg: Option<Color>, bg: Option<Color>) -> StyleSpec {
    StyleSpec { fg, bg, bold: false, dim: false, reversed: false }
}

pub open spec fn with_bold(s: StyleSpec) -> StyleSpec {
    StyleSpec { bold: true, ..s }
}

pub open spec fn rgb(r: u8, g: u8, b: u8) -> Option<Color> {
    Some(Color::Rgb(r, g, b))
}

/// The style each theme gives each role.
pub open spec fn style_table(v: ThemeVariant, role: StyleRole) -> StyleSpec {
    match v {
        ThemeVariant::Inherit => match role {
            StyleRole::Normal => plain(),
            StyleRole::Selected => StyleSpec { bold: true, reversed: true, ..plain() },
            StyleRole::Dim => StyleSpec { dim: true, ..plain() },
            StyleRole::Accent => with_bold(plain()),
            StyleRole::Border => StyleSpec { dim: true, ..plain() },
            StyleRole::Error => StyleSpec { bold: true, reversed: true, ..plain() },
            StyleRole::Success => with_bold(plain()),
            StyleRole::Header => with_bold(plain()),
            StyleRole::BlockBackground => plain(),
        },
        ThemeVariant::OneDark => match role {
            StyleRole::Normal => fg_bg(rgb(171, 178, 191), rgb(40, 44, 52)),
            StyleRole::Selected => with_bold(fg_bg(rgb(40, 44, 52), rgb(229, 192, 123))),
            StyleRole::Dim => fg_bg(rgb(92, 99, 112), rgb(40, 44, 52)),
            StyleRole::Accent => fg_bg(rgb(229, 192, 123), None),
            StyleRole::Border => fg_bg(rgb(97, 175, 239), None),
            StyleRole::Error => fg_bg(rgb(224, 108, 117), None),
            StyleRole::Success => fg_bg(rgb(152, 195, 121), None),
            StyleRole::Header => with_bold(fg_bg(rgb(229, 192, 123), None)),
            StyleRole::BlockBackground => fg_bg(None, rgb(40, 44, 52)),
        },
        ThemeVariant::SkyOrange => match role {
            StyleRole::Normal => fg_bg(Some(Color::White), rgb(18, 18, 24)),
            StyleRole::Selected => with_bold(fg_bg(rgb(18, 18, 24), rgb(255, 140, 0))),
            StyleRole::Dim => fg_bg(rgb(80, 100, 120), rgb(18, 18, 24)),
            StyleRole::Accent => fg_bg(rgb(255, 140, 0), None),
            StyleRole::Border => fg_bg(rgb(135, 206, 235), None),
            StyleRole::Error => fg_bg(rgb(220, 80, 80), rgb(18, 18, 24)),
            StyleRole::Success => fg_bg(rgb(100, 200, 120), rgb(18, 18, 24)),
            StyleRole::Header => with_bold(fg_bg(rgb(255, 140, 0), rgb(18, 18, 24))),
            StyleRole::BlockBackground => fg_bg(None, rgb(18, 18, 24)),
        },
    }
}

fn spec_of(fg: Option<Color>, bg: Option<Color>, bold: bool, dim: bool, reversed: bool) -> (r:
    StyleSpec)
    ensures
        r == (StyleSpec { fg, bg, bold, dim, reversed }),
{
    StyleSpec { fg, bg, bold, dim, reversed }
}

/// The styles of one theme.
pub struct Palette {
    variant: ThemeVariant,
}

impl Palette {
    pub closed spec fn variant_of(&self) -> ThemeVariant {
        self.variant
    }

    pub fn new(variant: ThemeVariant) -> (p: Self)
        ensures
            p.variant_of() == variant,
    {
        Palette { variant }
    }

    /// The theme this palette styles.
    pub fn variant(&self) -> (v: ThemeVariant)
        ensures
            v == self.variant_of(),
    {
        self.variant
    }

    /// The style of `role` in this palette's theme.
    pub fn style_for(&self, role: StyleRole) -> (s: StyleSpec)
        ensures
            s == style_table(self.variant_of(), role),
    {
        let c = |r: u8, g: u8, b: u8| -> (o: Option<Color>)
            ensures
                o == rgb(r, g, b),
            { Some(Color::Rgb(r, g, b)) };
        match self.variant {
            ThemeVariant::Inherit => match role {
                StyleRole::Normal => spec_of(None, None, false, false, false),
                StyleRole::Selected => spec_of(None, None, true, false, true),
                StyleRole::Dim => spec_of(None, None, false, true, false),
                StyleRole::Accent => spec_of(None, None, true, false, false),
                StyleRole::Border => spec_of(None, None, false, true, false),
                StyleRole::Error => spec_of(None, None, true, false, true),
                StyleRole::Success => spec_of(None, None, true, false, false),
                StyleRole::Header => spec_of(None, None, true, false, false),
                StyleRole::BlockBackground => spec_of(None, None, false, false, false),
            },
            ThemeVariant::OneDark => match role {
                StyleRole::Normal => spec_of(c(171, 178, 191), c(40, 44, 52), false, false, false),
                StyleRole::Selected => spec_of(c(40, 44, 52), c(229, 192, 123), true, false, false),
                StyleRole::Dim => spec_of(c(92, 99, 112), c(40, 44, 52), false, false, false),
                StyleRole::Accent => spec_of(c(229, 192, 123), None, false, false, false),
                StyleRole::Border => spec_of(c(97, 175, 239), None, false, false, false),
                StyleRole::Error => spec_of(c(224, 108, 117), None, false, false, false),
                StyleRole::Success => spec_of(c(152, 195, 121), None, false, false, false),
                StyleRole::Header => spec_of(c(229, 192, 123), None, true, false, false),
                StyleRole::BlockBackground => spec_of(None, c(40, 44, 52), false, false, false),
            },
            ThemeVariant::SkyOrange => match role {
                StyleRole::Normal => spec_of(Some(Color::White), c(18, 18, 24), false, false, false),
                StyleRole::Selected => spec_of(c(18, 18, 24), c(255, 140, 0), true, false, false),
                StyleRole::Dim => spec_of(c(80, 100, 120), c(18, 18, 24), false, false, false),
                StyleRole::Accent => spec_of(c(255, 140, 0), None, false, false, false),
                StyleRole::Border => spec_of(c(135, 206, 235), None, false, false, false),
                StyleRole::Error => spec_of(c(220, 80, 80), c(18, 18, 24), false, false, false),
                StyleRole::Success => spec_of(c(100, 200, 120), c(18, 18, 24), false, false, false),
                StyleRole::Header => spec_of(c(255, 140, 0), c(18, 18, 24), true, false, false),
                StyleRole::BlockBackground => spec_of(None, c(18, 18, 24), false, false, false),
            },
        }
    }

    pub fn style_normal(&self) -> (s: StyleSpec)
        ensures
            s == style_table(self.variant_of(), StyleRole::Normal),
    {
        self.style_for(StyleRole::Normal)
    }

    pub fn style_selected(&self) -> (s: StyleSpec)
        ensures
            s == style_table(self.variant_of(), StyleRole::Selected),
    {
        self.style_for(StyleRole::Selected)
    }

    pub fn style_dim(&self) -> (s: StyleSpec)
        ensures
            s == style_table(self.variant_of(), StyleRole::Dim),
    {
        self.style_for(StyleRole::Dim)
    }

    pub fn style_accent(&self) -> (s: StyleSpec)
        ensures
            s == style_table(self.variant_of(), StyleRole::Accent),
    {
        self.style_for(StyleRole::Accent)
    }

    pub fn style_border(&self) -> (s: StyleSpec)
        ensures
            s == style_table(self.variant_of(), StyleRole::Border),
    {
        self.style_for(StyleRole::Border)
    }

    pub fn style_error(&self) -> (s: StyleSpec)
        ensures
            s == style_table(self.variant_of(), StyleRole::Error),
    {
        self.style_for(StyleRole::Error)
    }

    pub fn style_success(&self) -> (s: StyleSpec)
        ensures
            s == style_table(self.variant_of(), StyleRole::Success),
    {
        self.style_for(StyleRole::Success)
    }

    pub fn style_header(&self) -> (s: StyleSpec)
        ensures
            s == style_table(self.variant_of(), StyleRole::Header),
    {
        self.style_for(StyleRole::Header)
    }

    /// The style of block backgrounds.
    pub fn block_bg(&self) -> (s: StyleSpec)
        ensures
            s == style_table(self.variant_of(), StyleRole::BlockBackground),
    {
        self.style_for(StyleRole::BlockBackground)
    }
}

} // verus!
