//! Drawing styles for the 2D and 3D outputs.
use vstd::prelude::*;

verus! {

/// How a 2D path is drawn.
#[derive(Clone, Copy, PartialEq, Eq, Structural, Debug)]
pub enum PathStyle2 {
    Dots,
    Line,
    LineWithDots,
}

impl PathStyle2 {
    /// Whether the path's points are joined by a line.
    pub fn has_line(&self) -> (r: bool)
        ensures
            r == !(*self is Dots),
    {
        match *self {
            PathStyle2::Dots => false,
            PathStyle2::Line => true,
            PathStyle2::LineWithDots => true,
        }
    }

    /// Whether each of the path's points is marked with a dot.
    pub fn has_dots(&self) -> (r: bool)
        ensures
            r == !(*self is Line),
    {
        match *self {
            PathStyle2::Dots => true,
            PathStyle2::Line => false,
            PathStyle2::LineWithDots => true,
        }
    }
}

/// How a 3D path is drawn.
#[derive(Clone, Copy, PartialEq, Eq, Structural, Debug)]
pub enum PathStyle3 {
    Dots,
    Line,
    Solid,
}

/// The colors used in drawings.
#[derive(Clone, Copy, PartialEq, Eq, Structural, Debug)]
pub enum SvgColor {
    Red,
    Yellow,
    Green,
    Cyan,
    Blue,
    Magenta,
    Black,
    White,
    LightGrey,
    DarkGrey,
}

pub open spec fn color_value(c: SvgColor) -> Seq<char> {
    match c {
        SvgColor::Red => seq!['r', 'e', 'd'],
        SvgColor::Yellow => seq!['#', 'e', 'b', 'a', '6', '7', '6'],
        SvgColor::Green => seq!['#', 'a', '7', 'b', 'e', '7', '4'],
        SvgColor::Cyan => seq!['#', '4', '8', 'c', '9', 'b', '4'],
        SvgColor::Blue => seq!['#', '3', 'a', 'c', '3', 'f', '5'],
        SvgColor::Magenta => seq!['#', 'b', '9', 'a', 'c', 'f', '6'],
        SvgColor::Black => seq!['#', '0', '0', '0', '0', '0', '0'],
        SvgColor::White => seq!['#', 'f', 'f', 'f', 'f', 'f', 'f'],
        SvgColor::LightGrey => seq!['#', 'e', 'e', 'e', 'e', 'e', 'e'],
        SvgColor::DarkGrey => seq!['#', 'b', '6', 'b', '6', 'b', '6'],
    }
}

impl SvgColor {
    /// The color as an SVG attribute value.
    pub fn value(&self) -> (r: &'static str)
        ensures
            r@ == color_value(*self),
    {
        match *self {
            SvgColor::Red => {
                proof {
                    reveal_strlit("red");
                }
                assert("red"@ =~= color_value(*self));
                "red"
            },
            SvgColor::Yellow => {
                proof {
                    reveal_strlit("#eba676");
                }
                assert("#eba676"@ =~= color_value(*self));
                "#eba676"
            },
            SvgColor::Green => {
                proof {
                    reveal_strlit("#a7be74");
                }
                assert("#a7be74"@ =~= color_value(*self));
                "#a7be74"
            },
            SvgColor::Cyan => {
                proof {
                    reveal_strlit("#48c9b4");
                }
                assert("#48c9b4"@ =~= color_value(*self));
                "#48c9b4"
            },
            SvgColor::Blue => {
                proof {
                    reveal_strlit("#3ac3f5");
                }
                assert("#3ac3f5"@ =~= color_value(*self));
                "#3ac3f5"
            },
            SvgColor::Magenta => {
                proof {
                    reveal_strlit("#b9acf6");
                }
                assert("#b9acf6"@ =~= color_value(*self));
                "#b9acf6"
            },
            SvgColor::Black => {
                proof {
                    reveal_strlit("#000000");
                }
                assert("#000000"@ =~= color_value(*self));
                "#000000"
            },
            SvgColor::White => {
                proof {
                    reveal_strlit("#ffffff");
                }
                assert("#ffffff"@ =~= color_value(*self));
                "#ffffff"
            },
            SvgColor::LightGrey => {
                proof {
                    reveal_strlit("#eeeeee");
                }
                assert("#eeeeee"@ =~= color_value(*self));
                "#eeeeee"
            },
            SvgColor::DarkGrey => {
                proof {
                    reveal_strlit("#b6b6b6");
                }
                assert("#b6b6b6"@ =~= color_value(*self));
                "#b6b6b6"
            },
        }
    }
}

} // verus!
