//! Small decisions of the desktop front end: the preferences dialog's
//! actions and tabs, the colour theme, unit suffixes of input fields, and the
//! units a G-code job takes from a Gerber source.
use vstd::prelude::*;

verus! {

/// Which action the user pressed in the preferences footer (`NoAction` if just
/// editing).
#[derive(Clone, Copy, Debug, PartialEq, Eq, Structural)]
pub enum PrefsAction {
    NoAction,
    ApplyToParams,
    Save,
    Load,
    ResetDefaults,
}

impl Default for PrefsAction {
    /// No action.
    fn default() -> (a: PrefsAction)
        ensures
            a == PrefsAction::NoAction,
    {
        PrefsAction::NoAction
    }
}

/// The preference categories shown as tabs.
#[derive(Clone, Copy, Debug, PartialEq, Eq, Structural)]
pub enum PrefsTab {
    General,
    CamDefaults,
    Isolation,
}

/// The title of a tab.
pub open spec fn tab_title(t: PrefsTab) -> Seq<char> {
    match t {
        PrefsTab::General => "General"@,
        PrefsTab::CamDefaults => "CAM Defaults"@,
        PrefsTab::Isolation => "Isolation"@,
    }
}

impl Default for PrefsTab {
    /// The first tab.
    fn default() -> (t: PrefsTab)
        ensures
            t == PrefsTab::General,
    {
        PrefsTab::General
    }
}

impl PrefsTab {
    /// The tabs, in display order.
    pub fn all() -> (v: Vec<PrefsTab>)
        ensures
            v@ == seq![PrefsTab::General, PrefsTab::CamDefaults, PrefsTab::Isolation],
    {
        let v = vec![PrefsTab::General, PrefsTab::CamDefaults, PrefsTab::Isolation];
        assert(v@ =~= seq![PrefsTab::General, PrefsTab::CamDefaults, PrefsTab::Isolation]);
        v
    }

    /// The title shown on the tab.
    pub fn title(self) -> (s: &'static str)
        ensures
            s@ == tab_title(self),
    {
        match self {
            PrefsTab::General => "General",
            PrefsTab::CamDefaults => "CAM Defaults",
            PrefsTab::Isolation => "Isolation",
        }
    }
}

/// The application colour scheme.
#[derive(Clone, Copy, Debug, PartialEq, Eq, Structural)]
pub enum Theme {
    Light,
    Dark,
}

impl Default for Theme {
    /// The light scheme.
    fn default() -> (t: Theme)
        ensures
            t == Theme::Light,
    {
        Theme::Light
    }
}

/// An opaque colour, 8 bits per channel, with its alpha.
#[derive(Clone, Copy, Debug, PartialEq, Eq, Structural)]
pub struct Rgba {
    pub r: u8,
    pub g: u8,
    pub b: u8,
    pub a: u8,
}

/// An opaque grey of lightness `l`.
pub open spec fn gray(l: u8) -> Rgba {
    Rgba { r: l, g: l, b: l, a: 255 }
}

/// An opaque colour.
pub open spec fn rgb(r: u8, g: u8, b: u8) -> Rgba {
    Rgba { r, g, b, a: 255 }
}

/// Colours of the plot canvas for a theme.
#[derive(Clone, Copy, Debug, PartialEq, Eq, Structural)]
pub struct Palette {
    /// Canvas background.
    pub plot_bg: Rgba,
    /// Background of the ruler strips.
    pub margin_bg: Rgba,
    /// Fine grid lines.
    pub grid_minor: Rgba,
    /// Major grid lines.
    pub grid_major: Rgba,
    /// The X and Y axes through the origin.
    pub axis: Rgba,
    /// Ruler numbers.
    pub ruler_text: Rgba,
    /// The cursor crosshair.
    pub cursor: Rgba,
}

/// The canvas colours of a theme.
pub open spec fn palette_spec(t: Theme) -> Palette {
    match t {
        Theme::Light => Palette {
            plot_bg: gray(252),
            margin_bg: gray(244),
            grid_minor: gray(228),
            grid_major: gray(198),
            axis: rgb(224, 122, 122),
            ruler_text: gray(96),
            cursor: rgb(214, 40, 40),
        },
        Theme::Dark => Palette {
            plot_bg: gray(16),
            margin_bg: gray(24),
            grid_minor: gray(38),
            grid_major: gray(64),
            axis: rgb(170, 72, 72),
            ruler_text: gray(150),
            cursor: rgb(255, 80, 80),
        },
    }
}

fn grey_of(l: u8) -> (c: Rgba)
    ensures
        c == gray(l),
{
    Rgba { r: l, g: l, b: l, a: 255 }
}

fn rgb_of(r: u8, g: u8, b: u8) -> (c: Rgba)
    ensures
        c == rgb(r, g, b),
{
    Rgba { r, g, b, a: 255 }
}

impl Theme {
    /// The canvas colour palette of the theme.
    pub fn palette(self) -> (p: Palette)
        ensures
            p == palette_spec(self),
    {
        match self {
            Theme::Light => Palette {
                plot_bg: grey_of(252),
                margin_bg: grey_of(244),
                grid_minor: grey_of(228),
                grid_major: grey_of(198),
                axis: rgb_of(224, 122, 122),
                ruler_text: grey_of(96),
                cursor: rgb_of(214, 40, 40),
            },
            Theme::Dark => Palette {
                plot_bg: grey_of(16),
                margin_bg: grey_of(24),
                grid_minor: grey_of(38),
                grid_major: grey_of(64),
                axis: rgb_of(170, 72, 72),
                ruler_text: grey_of(150),
                cursor: rgb_of(255, 80, 80),
            },
        }
    }
}

/// The two themes' palettes differ in background, ruler background and
/// cursor.
pub proof fn law_palettes_are_distinct()
    ensures
        palette_spec(Theme::Light).plot_bg != palette_spec(Theme::Dark).plot_bg,
        palette_spec(Theme::Light).margin_bg != palette_spec(Theme::Dark).margin_bg,
        palette_spec(Theme::Light).cursor != palette_spec(Theme::Dark).cursor,
{
}

/// The suffix of length fields: `" in"` when the units are `in`, else
/// `" mm"`.
pub open spec fn length_suffix_spec(units: Seq<char>) -> Seq<char> {
    if units == "in"@ {
        " in"@
    } else {
        " mm"@
    }
}

/// The suffix of feed-rate fields: `" in/min"` when the units are `in`,
/// else `" mm/min"`.
pub open spec fn feed_suffix_spec(units: Seq<char>) -> Seq<char> {
    if units == "in"@ {
        " in/min"@
    } else {
        " mm/min"@
    }
}

/// Unit suffix for length fields, from the preferred units.
pub fn length_suffix(units: &str) -> (s: &'static str)
    ensures
        s@ == length_suffix_spec(units@),
{
    let u = crate::text::chars_of(units);
    if crate::text::eq_text(&u, "in") {
        " in"
    } else {
        " mm"
    }
}

/// Unit suffix for feed-rate fields, from the preferred units.
pub fn feed_suffix(units: &str) -> (s: &'static str)
    ensures
        s@ == feed_suffix_spec(units@),
{
    let u = crate::text::chars_of(units);
    if crate::text::eq_text(&u, "in") {
        " in/min"
    } else {
        " mm/min"
    }
}

/// The G-code units of a job made from a Gerber file in units `u`.
pub fn map_units(u: crate::gerber::Units) -> (g: crate::gcode::Units)
    ensures
        g == match u {
            crate::gerber::Units::Mm => crate::gcode::Units::Mm,
            crate::gerber::Units::Inch => crate::gcode::Units::Inch,
        },
{
    match u {
        crate::gerber::Units::Mm => crate::gcode::Units::Mm,
        crate::gerber::Units::Inch => crate::gcode::Units::Inch,
    }
}

} // verus!
