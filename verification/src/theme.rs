//! Display settings: colour theme, row density and inspector dock.

use vstd::prelude::*;

verus! {

/// Colour theme.
#[derive(Debug, Clone, Copy, PartialEq, Eq, Structural)]
pub enum Theme {
    Dark,
    Light,
}

impl Default for Theme {
    fn default() -> (r: Self)
        ensures
            r == Theme::Dark,
    {
        Theme::Dark
    }
}

/// The other theme.
pub open spec fn theme_toggled(t: Theme) -> Theme {
    match t {
        Theme::Dark => Theme::Light,
        Theme::Light => Theme::Dark,
    }
}

impl Theme {
    /// The other theme.
    pub fn toggle(self) -> (r: Self)
        ensures
            r == theme_toggled(self),
    {
        match self {
            Theme::Dark => Theme::Light,
            Theme::Light => Theme::Dark,
        }
    }

    /// The name shown for the theme.
    pub fn label(self) -> (r: &'static str)
        ensures
            r@ == match self {
                Theme::Dark => "Dark"@,
                Theme::Light => "Light"@,
            },
    {
        match self {
            Theme::Dark => "Dark",
            Theme::Light => "Light",
        }
    }
}

/// Row density of the feed.
#[derive(Debug, Clone, Copy, PartialEq, Eq, Structural)]
pub enum Density {
    Compact,
    Comfy,
}

impl Default for Density {
    fn default() -> (r: Self)
        ensures
            r == Density::Compact,
    {
        Density::Compact
    }
}

/// The other density.
pub open spec fn density_toggled(d: Density) -> Density {
    match d {
        Density::Compact => Density::Comfy,
        Density::Comfy => Density::Compact,
    }
}

impl Density {
    /// The other density.
    pub fn toggle(self) -> (r: Self)
        ensures
            r == density_toggled(self),
    {
        match self {
            Density::Compact => Density::Comfy,
            Density::Comfy => Density::Compact,
        }
    }

    /// The name shown for the density.
    pub fn label(self) -> (r: &'static str)
        ensures
            r@ == match self {
                Density::Compact => "Compact"@,
                Density::Comfy => "Comfy"@,
            },
    {
        match self {
            Density::Compact => "Compact",
            Density::Comfy => "Comfy",
        }
    }
}

/// Where the inspector is docked.
#[derive(Debug, Clone, Copy, PartialEq, Eq, Structural)]
pub enum Dock {
    Bottom,
    Right,
}

impl Default for Dock {
    fn default() -> (r: Self)
        ensures
            r == Dock::Bottom,
    {
        Dock::Bottom
    }
}

/// Toggling the theme changes it, and toggling twice gives it back.
pub proof fn lemma_theme_toggle_roundtrip(t: Theme)
    ensures
        theme_toggled(t) != t,
        theme_toggled(theme_toggled(t)) == t,
{
}

/// Toggling the density changes it, and toggling twice gives it back.
pub proof fn lemma_density_toggle_roundtrip(d: Density)
    ensures
        density_toggled(d) != d,
        density_toggled(density_toggled(d)) == d,
{
}

} // verus!
