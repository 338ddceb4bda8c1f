use vstd::prelude::*;

verus! {

/// The color a chart is drawn in: the theme's accent color, or a fixed one.
#[derive(Clone, Copy, Debug, PartialEq, Eq, Structural)]
pub enum Color {
    Accent,
    Rgb { red: u8, green: u8, blue: u8 },
}

} // verus!
