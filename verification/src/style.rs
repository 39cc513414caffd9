//! Style attributes a cell can carry, and the compact style-spec
//! mini-language that sets them.

use vstd::prelude::*;
use crate::format::Alignment;

verus! {

/// A terminal color, in its normal or bright variant.
#[derive(Clone, Copy, Debug, PartialEq, Eq, Structural)]
pub enum Color {
    Black,
    Red,
    Green,
    Yellow,
    Blue,
    Magenta,
    Cyan,
    White,
    BrightBlack,
    BrightRed,
    BrightGreen,
    BrightYellow,
    BrightBlue,
    BrightMagenta,
    BrightCyan,
    BrightWhite,
}

/// A style attribute applied to a cell each time it is printed to a
/// style-capable sink.
#[derive(Clone, Copy, Debug, PartialEq, Eq, Structural)]
pub enum Attr {
    Bold,
    Italic(bool),
    Underline(bool),
    ForegroundColor(Color),
    BackgroundColor(Color),
}

/// The color a single style-spec character selects, if any: eight lowercase
/// names for the normal colors and their capitals for the bright ones.
pub open spec fn spec_color_of(c: char) -> Option<Color> {
    match c {
        'r' => Option::Some(Color::Red),
        'R' => Option::Some(Color::BrightRed),
        'b' => Option::Some(Color::Blue),
        'B' => Option::Some(Color::BrightBlue),
        'g' => Option::Some(Color::Green),
        'G' => Option::Some(Color::BrightGreen),
        'y' => Option::Some(Color::Yellow),
        'Y' => Option::Some(Color::BrightYellow),
        'c' => Option::Some(Color::Cyan),
        'C' => Option::Some(Color::BrightCyan),
        'm' => Option::Some(Color::Magenta),
        'M' => Option::Some(Color::BrightMagenta),
        'w' => Option::Some(Color::White),
        'W' => Option::Some(Color::BrightWhite),
        'd' => Option::Some(Color::Black),
        'D' => Option::Some(Color::BrightBlack),
        _ => Option::None,
    }
}

/// The color a single style-spec character selects, if any.
pub fn color_of(c: char) -> (r: Option<Color>)
    ensures
        r == spec_color_of(c),
{
    match c {
        'r' => Some(Color::Red),
        'R' => Some(Color::BrightRed),
        'b' => Some(Color::Blue),
        'B' => Some(Color::BrightBlue),
        'g' => Some(Color::Green),
        'G' => Some(Color::BrightGreen),
        'y' => Some(Color::Yellow),
        'Y' => Some(Color::BrightYellow),
        'c' => Some(Color::Cyan),
        'C' => Some(Color::BrightCyan),
        'm' => Some(Color::Magenta),
        'M' => Some(Color::BrightMagenta),
        'w' => Some(Color::White),
        'W' => Some(Color::BrightWhite),
        'd' => Some(Color::Black),
        'D' => Some(Color::BrightBlack),
        _ => None,
    }
}

/// The parser's state while it walks a style spec from left to right: the
/// attributes gathered so far, the alignment, and whether the previous
/// character announced a foreground or a background color.
pub ghost struct StyleState {
    pub style: Seq<Attr>,
    pub align: Alignment,
    pub fg: bool,
    pub bg: bool,
}

/// The state every parse starts from: no attribute, left alignment, no
/// pending color announcement.
pub open spec fn style_start() -> StyleState {
    StyleState { style: Seq::empty(), align: Alignment::LEFT, fg: false, bg: false }
}

/// One step of the style-spec grammar. After `F` or `B`, a color character
/// adds the announced color and any other character cancels the
/// announcement without adding anything. Otherwise `F`/`B` announce a
/// color, `b`/`i`/`u` add an attribute, `c`/`l`/`r` set the alignment, and
/// every other character is ignored.
pub open spec fn style_step(st: StyleState, c: char) -> StyleState {
    if st.fg || st.bg {
        match spec_color_of(c) {
            Option::Some(col) => StyleState {
                style: if st.fg {
                    st.style.push(Attr::ForegroundColor(col))
                } else {
                    st.style.push(Attr::BackgroundColor(col))
                },
                align: st.align,
                fg: false,
                bg: false,
            },
            Option::None => StyleState { style: st.style, align: st.align, fg: false, bg: false },
        }
    } else {
        match c {
            'F' => StyleState { fg: true, ..st },
            'B' => StyleState { bg: true, ..st },
            'b' => StyleState { style: st.style.push(Attr::Bold), ..st },
            'i' => StyleState { style: st.style.push(Attr::Italic(true)), ..st },
            'u' => StyleState { style: st.style.push(Attr::Underline(true)), ..st },
            'c' => StyleState { align: Alignment::CENTER, ..st },
            'l' => StyleState { align: Alignment::LEFT, ..st },
            'r' => StyleState { align: Alignment::RIGHT, ..st },
            _ => st,
        }
    }
}

/// The state after walking a whole spec string from a given state.
pub open spec fn style_run(st: StyleState, s: Seq<char>) -> StyleState
    decreases s.len(),
{
    if s.len() == 0 {
        st
    } else {
        style_run(style_step(st, s[0]), s.drop_first())
    }
}

/// The result of parsing a spec string from the start state.
pub open spec fn parsed_style(s: Seq<char>) -> StyleState {
    style_run(style_start(), s)
}

/// Walking one more character continues the walk from where it stood.
pub proof fn lemma_style_run_snoc(st: StyleState, s: Seq<char>, c: char)
    ensures
        style_run(st, s.push(c)) == style_step(style_run(st, s), c),
    decreases s.len(),
{
    if s.len() == 0 {
        assert(s.push(c).drop_first() =~= Seq::<char>::empty());
        assert(s.push(c)[0] == c);
        assert(style_run(style_step(st, c), s.push(c).drop_first()) == style_step(st, c));
    } else {
        assert(s.push(c).drop_first() =~= s.drop_first().push(c));
        assert(s.push(c)[0] == s[0]);
        lemma_style_run_snoc(style_step(st, s[0]), s.drop_first(), c);
    }
}

/// A character that neither announces nor completes a color, adds no
/// attribute and sets no alignment leaves the parse state exactly as it
/// was: unrecognized directives are ignored without any effect.
pub proof fn lemma_unknown_token_ignored(st: StyleState, c: char)
    requires
        !st.fg,
        !st.bg,
        c != 'F',
        c != 'B',
        c != 'b',
        c != 'i',
        c != 'u',
        c != 'c',
        c != 'l',
        c != 'r',
    ensures
        style_step(st, c) == st,
{
}

} // verus!
