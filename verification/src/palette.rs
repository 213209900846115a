//! The Catppuccin Mocha colours of the terminal front end, as plain RGB values
//! (the drawing code turns them into its own colour type).
use vstd::prelude::*;

verus! {

/// A 24-bit colour.
#[derive(Clone, Copy, PartialEq, Eq, Structural, Debug)]
pub struct Rgb {
    pub r: u8,
    pub g: u8,
    pub b: u8,
}

pub open spec fn rgb(r: u8, g: u8, b: u8) -> Rgb {
    Rgb { r, g, b }
}

/// The colour roles of the front end. The full palette is kept even where
/// unused, so that screens added later can draw from it directly.
#[derive(Clone, Copy, PartialEq, Eq, Structural, Debug)]
pub struct Palette {
    pub accent: Rgb,
    pub panel_bg: Rgb,
    pub active_row_bg: Rgb,
    pub selection_bg: Rgb,
    pub surface0: Rgb,
    pub surface1: Rgb,
    pub surface_dim: Rgb,
    pub overlay0: Rgb,
    pub overlay1: Rgb,
    pub text: Rgb,
    pub subtext0: Rgb,
    pub mauve: Rgb,
    pub green: Rgb,
    pub yellow: Rgb,
    pub red: Rgb,
    pub blue: Rgb,
    pub teal: Rgb,
    pub peach: Rgb,
}

/// The Catppuccin Mocha palette.
pub open spec fn catppuccin_palette() -> Palette {
    Palette {
        accent: rgb(137, 180, 250),
        panel_bg: rgb(24, 24, 37),
        active_row_bg: rgb(30, 30, 46),
        selection_bg: rgb(49, 50, 68),
        surface0: rgb(49, 50, 68),
        surface1: rgb(69, 71, 90),
        surface_dim: rgb(30, 30, 46),
        overlay0: rgb(108, 112, 134),
        overlay1: rgb(127, 132, 156),
        text: rgb(205, 214, 244),
        subtext0: rgb(166, 173, 200),
        mauve: rgb(203, 166, 247),
        green: rgb(166, 227, 161),
        yellow: rgb(249, 226, 175),
        red: rgb(243, 139, 168),
        blue: rgb(137, 180, 250),
        teal: rgb(148, 226, 213),
        peach: rgb(250, 179, 135),
    }
}

impl Palette {
    /// The Catppuccin Mocha values.
    pub fn catppuccin() -> (p: Palette)
        ensures
            p == catppuccin_palette(),
            p.accent == rgb(137, 180, 250),
            p.panel_bg == rgb(24, 24, 37),
            p.active_row_bg == rgb(30, 30, 46),
            p.selection_bg == rgb(49, 50, 68),
            p.surface0 == rgb(49, 50, 68),
            p.surface1 == rgb(69, 71, 90),
            p.surface_dim == rgb(30, 30, 46),
            p.overlay0 == rgb(108, 112, 134),
            p.overlay1 == rgb(127, 132, 156),
            p.text == rgb(205, 214, 244),
            p.subtext0 == rgb(166, 173, 200),
            p.mauve == rgb(203, 166, 247),
            p.green == rgb(166, 227, 161),
            p.yellow == rgb(249, 226, 175),
            p.red == rgb(243, 139, 168),
            p.blue == rgb(137, 180, 250),
            p.teal == rgb(148, 226, 213),
            p.peach == rgb(250, 179, 135),
    {
        Palette {
            accent: Rgb { r: 137, g: 180, b: 250 },
            panel_bg: Rgb { r: 24, g: 24, b: 37 },
            active_row_bg: Rgb { r: 30, g: 30, b: 46 },
            selection_bg: Rgb { r: 49, g: 50, b: 68 },
            surface0: Rgb { r: 49, g: 50, b: 68 },
            surface1: Rgb { r: 69, g: 71, b: 90 },
            surface_dim: Rgb { r: 30, g: 30, b: 46 },
            overlay0: Rgb { r: 108, g: 112, b: 134 },
            overlay1: Rgb { r: 127, g: 132, b: 156 },
            text: Rgb { r: 205, g: 214, b: 244 },
            subtext0: Rgb { r: 166, g: 173, b: 200 },
            mauve: Rgb { r: 203, g: 166, b: 247 },
            green: Rgb { r: 166, g: 227, b: 161 },
            yellow: Rgb { r: 249, g: 226, b: 175 },
            red: Rgb { r: 243, g: 139, b: 168 },
            blue: Rgb { r: 137, g: 180, b: 250 },
            teal: Rgb { r: 148, g: 226, b: 213 },
            peach: Rgb { r: 250, g: 179, b: 135 },
        }
    }
}

} // verus!
