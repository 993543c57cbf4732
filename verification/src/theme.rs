//! Colour themes, chosen by name.
use vstd::prelude::*;

use crate::style::Color;
use crate::text::{chars_eq_str, str_chars};

verus! {

broadcast use vstd::string::group_string_axioms;

/// The colours of a theme.
#[derive(Debug, Clone, Copy, PartialEq, Eq, Structural)]
pub struct Theme {
    pub bg: Color,
    pub fg: Color,
    pub accent: Color,
    pub muted: Color,
    pub border: Color,
    pub sel_bg: Color,
    pub sel_fg: Color,
    pub title: Color,
}

/// The palette of each named theme; unknown names get `cyberpunk`.
pub open spec fn spec_theme(name: Seq<char>) -> Theme {
    if name == "catppuccin"@ {
        Theme {
            bg: Color::Rgb(30, 30, 46),
            fg: Color::Rgb(205, 214, 244),
            accent: Color::Rgb(203, 166, 247),
            muted: Color::Rgb(108, 112, 134),
            border: Color::Rgb(69, 71, 90),
            sel_bg: Color::Rgb(49, 50, 68),
            sel_fg: Color::Rgb(205, 214, 244),
            title: Color::Rgb(245, 194, 231),
        }
    } else if name == "dracula"@ {
        Theme {
            bg: Color::Rgb(40, 42, 54),
            fg: Color::Rgb(248, 248, 242),
            accent: Color::Rgb(189, 147, 249),
            muted: Color::Rgb(98, 114, 164),
            border: Color::Rgb(68, 71, 90),
            sel_bg: Color::Rgb(68, 71, 90),
            sel_fg: Color::Rgb(248, 248, 242),
            title: Color::Rgb(255, 121, 198),
        }
    } else if name == "gruvbox"@ {
        Theme {
            bg: Color::Rgb(40, 40, 40),
            fg: Color::Rgb(235, 219, 178),
            accent: Color::Rgb(250, 189, 47),
            muted: Color::Rgb(146, 131, 116),
            border: Color::Rgb(80, 73, 69),
            sel_bg: Color::Rgb(80, 73, 69),
            sel_fg: Color::Rgb(235, 219, 178),
            title: Color::Rgb(254, 128, 25),
        }
    } else if name == "nord"@ {
        Theme {
            bg: Color::Rgb(46, 52, 64),
            fg: Color::Rgb(216, 222, 233),
            accent: Color::Rgb(136, 192, 208),
            muted: Color::Rgb(76, 86, 106),
            border: Color::Rgb(59, 66, 82),
            sel_bg: Color::Rgb(59, 66, 82),
            sel_fg: Color::Rgb(216, 222, 233),
            title: Color::Rgb(129, 161, 193),
        }
    } else if name == "tokyo-night"@ {
        Theme {
            bg: Color::Rgb(26, 27, 38),
            fg: Color::Rgb(192, 202, 245),
            accent: Color::Rgb(122, 162, 247),
            muted: Color::Rgb(86, 95, 137),
            border: Color::Rgb(51, 70, 124),
            sel_bg: Color::Rgb(40, 52, 87),
            sel_fg: Color::Rgb(192, 202, 245),
            title: Color::Rgb(125, 207, 255),
        }
    } else {
        Theme {
            bg: Color::Rgb(13, 2, 33),
            fg: Color::Rgb(244, 244, 248),
            accent: Color::Rgb(255, 42, 109),
            muted: Color::Rgb(109, 109, 153),
            border: Color::Rgb(61, 31, 92),
            sel_bg: Color::Rgb(26, 11, 46),
            sel_fg: Color::Rgb(5, 217, 232),
            title: Color::Rgb(5, 217, 232),
        }
    }
}

impl Theme {
    /// The theme named `name`; an unknown name falls back to `cyberpunk`.
    pub fn resolve(name: &str) -> (t: Theme)
        ensures
            t == spec_theme(name@),
    {
        let n = str_chars(name);
        if chars_eq_str(&n, "catppuccin") {
            Theme {
                bg: Color::Rgb(30, 30, 46),
                fg: Color::Rgb(205, 214, 244),
                accent: Color::Rgb(203, 166, 247),
                muted: Color::Rgb(108, 112, 134),
                border: Color::Rgb(69, 71, 90),
                sel_bg: Color::Rgb(49, 50, 68),
                sel_fg: Color::Rgb(205, 214, 244),
                title: Color::Rgb(245, 194, 231),
            }
        } else if chars_eq_str(&n, "dracula") {
            Theme {
                bg: Color::Rgb(40, 42, 54),
                fg: Color::Rgb(248, 248, 242),
                accent: Color::Rgb(189, 147, 249),
                muted: Color::Rgb(98, 114, 164),
                border: Color::Rgb(68, 71, 90),
                sel_bg: Color::Rgb(68, 71, 90),
                sel_fg: Color::Rgb(248, 248, 242),
                title: Color::Rgb(255, 121, 198),
            }
        } else if chars_eq_str(&n, "gruvbox") {
            Theme {
                bg: Color::Rgb(40, 40, 40),
                fg: Color::Rgb(235, 219, 178),
                accent: Color::Rgb(250, 189, 47),
                muted: Color::Rgb(146, 131, 116),
                border: Color::Rgb(80, 73, 69),
                sel_bg: Color::Rgb(80, 73, 69),
                sel_fg: Color::Rgb(235, 219, 178),
                title: Color::Rgb(254, 128, 25),
            }
        } else if chars_eq_str(&n, "nord") {
            Theme {
                bg: Color::Rgb(46, 52, 64),
                fg: Color::Rgb(216, 222, 233),
                accent: Color::Rgb(136, 192, 208),
                muted: Color::Rgb(76, 86, 106),
                border: Color::Rgb(59, 66, 82),
                sel_bg: Color::Rgb(59, 66, 82),
                sel_fg: Color::Rgb(216, 222, 233),
                title: Color::Rgb(129, 161, 193),
            }
        } else if chars_eq_str(&n, "tokyo-night") {
            Theme {
                bg: Color::Rgb(26, 27, 38),
                fg: Color::Rgb(192, 202, 245),
                accent: Color::Rgb(122, 162, 247),
                muted: Color::Rgb(86, 95, 137),
                border: Color::Rgb(51, 70, 124),
                sel_bg: Color::Rgb(40, 52, 87),
                sel_fg: Color::Rgb(192, 202, 245),
                title: Color::Rgb(125, 207, 255),
            }
        } else {
            Theme {
                bg: Color::Rgb(13, 2, 33),
                fg: Color::Rgb(244, 244, 248),
                accent: Color::Rgb(255, 42, 109),
                muted: Color::Rgb(109, 109, 153),
                border: Color::Rgb(61, 31, 92),
                sel_bg: Color::Rgb(26, 11, 46),
                sel_fg: Color::Rgb(5, 217, 232),
                title: Color::Rgb(5, 217, 232),
            }
        }
    }
}

} // verus!
