//! How image pixels map onto terminal character cells.
use vstd::prelude::*;

use crate::size2d::Size2D;
use crate::text::{ascii_lower, chars_eq_ignore_ascii_case, eq_ignore_ascii_case, str_chars};

verus! {

/// The characters used to show image pixels: half blocks (1 by 2 pixels
/// per cell), sextants (2 by 3) or braille patterns (2 by 4).
#[derive(Debug, Clone, Copy, PartialEq, Eq, Structural)]
pub enum DrawMode {
    HalfBlock,
    TwoByThree,
    Braille,
}

/// The pixels per character cell of a mode.
pub open spec fn mode_size(m: DrawMode) -> Size2D {
    match m {
        DrawMode::HalfBlock => Size2D { width: 1, height: 2 },
        DrawMode::TwoByThree => Size2D { width: 2, height: 3 },
        DrawMode::Braille => Size2D { width: 2, height: 4 },
    }
}

/// The mode that a name stands for, compared without regard to ASCII case.
pub open spec fn mode_named(s: Seq<char>) -> Option<DrawMode> {
    if eq_ignore_ascii_case(s, "halfblock"@) || eq_ignore_ascii_case(s, "half-block"@)
        || eq_ignore_ascii_case(s, "half_block"@) {
        Some(DrawMode::HalfBlock)
    } else if eq_ignore_ascii_case(s, "2by3"@) || eq_ignore_ascii_case(s, "twobythree"@)
        || eq_ignore_ascii_case(s, "two-by-three"@) || eq_ignore_ascii_case(s, "two_by_three"@) {
        Some(DrawMode::TwoByThree)
    } else if eq_ignore_ascii_case(s, "braille"@) {
        Some(DrawMode::Braille)
    } else {
        None
    }
}

/// The error of a text that names no draw mode.
#[derive(Debug, Clone, Copy, PartialEq, Eq, Structural)]
pub struct ParseDrawModeError;

impl DrawMode {
    /// The pixels per character cell.
    pub fn size(&self) -> (s: Size2D)
        ensures
            s == mode_size(*self),
    {
        match self {
            DrawMode::HalfBlock => Size2D { width: 1, height: 2 },
            DrawMode::TwoByThree => Size2D { width: 2, height: 3 },
            DrawMode::Braille => Size2D { width: 2, height: 4 },
        }
    }

    /// The mode that a name stands for: `halfblock`, `half-block`,
    /// `half_block`, `2by3`, `twobythree`, `two-by-three`, `two_by_three`
    /// or `braille`, in any ASCII case.
    pub fn parse(s: &str) -> (r: Result<DrawMode, ParseDrawModeError>)
        ensures
            r matches Ok(m) ==> mode_named(s@) == Some(m),
            r is Err <==> mode_named(s@) is None,
    {
        let v = str_chars(s);
        if chars_eq_ignore_ascii_case(&v, "halfblock") || chars_eq_ignore_ascii_case(
            &v,
            "half-block",
        ) || chars_eq_ignore_ascii_case(&v, "half_block") {
            Ok(DrawMode::HalfBlock)
        } else if chars_eq_ignore_ascii_case(&v, "2by3") || chars_eq_ignore_ascii_case(
            &v,
            "twobythree",
        ) || chars_eq_ignore_ascii_case(&v, "two-by-three") || chars_eq_ignore_ascii_case(
            &v,
            "two_by_three",
        ) {
            Ok(DrawMode::TwoByThree)
        } else if chars_eq_ignore_ascii_case(&v, "braille") {
            Ok(DrawMode::Braille)
        } else {
            Err(ParseDrawModeError)
        }
    }
}

impl Default for DrawMode {
    /// Half blocks.
    fn default() -> (m: DrawMode)
        ensures
            m == DrawMode::HalfBlock,
    {
        DrawMode::HalfBlock
    }
}

impl std::str::FromStr for DrawMode {
    type Err = ParseDrawModeError;

    /// The mode that a name stands for.
    fn from_str(s: &str) -> (r: Result<DrawMode, ParseDrawModeError>)
        ensures
            r matches Ok(m) ==> mode_named(s@) == Some(m),
            r is Err <==> mode_named(s@) is None,
    {
        DrawMode::parse(s)
    }
}

proof fn lemma_same_name(s: Seq<char>, a: Seq<char>, b: Seq<char>)
    requires
        eq_ignore_ascii_case(s, a),
        eq_ignore_ascii_case(s, b),
    ensures
        eq_ignore_ascii_case(a, b),
{
    assert forall|i: int| 0 <= i < a.len() implies #[trigger] ascii_lower(a[i]) == ascii_lower(
        b[i],
    ) by {
        assert(ascii_lower(s[i]) == ascii_lower(a[i]));
        assert(ascii_lower(s[i]) == ascii_lower(b[i]));
    }
}

/// Each name of a draw mode, in any ASCII case, stands for its own mode:
/// `halfblock`, `half-block` and `half_block` for half blocks; `2by3`,
/// `twobythree`, `two-by-three` and `two_by_three` for sextants; `braille`
/// for braille patterns. So `parse` gives that mode for it.
pub proof fn draw_mode_names(s: Seq<char>)
    ensures
        eq_ignore_ascii_case(s, "halfblock"@) || eq_ignore_ascii_case(s, "half-block"@)
            || eq_ignore_ascii_case(s, "half_block"@) ==> mode_named(s) == Some(
            DrawMode::HalfBlock,
        ),
        eq_ignore_ascii_case(s, "2by3"@) || eq_ignore_ascii_case(s, "twobythree"@)
            || eq_ignore_ascii_case(s, "two-by-three"@) || eq_ignore_ascii_case(
            s,
            "two_by_three"@,
        ) ==> mode_named(s) == Some(DrawMode::TwoByThree),
        eq_ignore_ascii_case(s, "braille"@) ==> mode_named(s) == Some(DrawMode::Braille),
{
    reveal_strlit("halfblock");
    reveal_strlit("half-block");
    reveal_strlit("half_block");
    reveal_strlit("2by3");
    reveal_strlit("twobythree");
    reveal_strlit("two-by-three");
    reveal_strlit("two_by_three");
    reveal_strlit("braille");
    if eq_ignore_ascii_case(s, "twobythree"@) {
        if eq_ignore_ascii_case(s, "half-block"@) {
            lemma_same_name(s, "twobythree"@, "half-block"@);
            assert(ascii_lower("twobythree"@[0]) == ascii_lower("half-block"@[0]));
        }
        if eq_ignore_ascii_case(s, "half_block"@) {
            lemma_same_name(s, "twobythree"@, "half_block"@);
            assert(ascii_lower("twobythree"@[0]) == ascii_lower("half_block"@[0]));
        }
    }
}

} // verus!
