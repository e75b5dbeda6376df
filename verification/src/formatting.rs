//! The `§` formatting codes of chat text, and the terminal styles that
//! show them.
use vstd::prelude::*;

verus! {

/// A terminal colour or style.
#[derive(Clone, Copy, Debug, PartialEq, Eq, Structural)]
pub enum TerminalStyle {
    Red,
    LightRed,
    Yellow,
    LightYellow,
    Green,
    LightGreen,
    LightBlue,
    Blue,
    LightMagenta,
    Magenta,
    White,
    LightWhite,
    LightBlack,
    Black,
    Bold,
    CrossedOut,
    Underline,
    Italic,
    /// Back to the terminal's own colour and style.
    Reset,
}

/// The codes that follow `§`, in the order they are shown on a terminal,
/// with their styles. Dark and light aqua both show as light blue, and
/// dark and light blue both as blue.
pub open spec fn spec_terminal_codes() -> Seq<(char, TerminalStyle)> {
    seq![
        ('4', TerminalStyle::Red),
        ('c', TerminalStyle::LightRed),
        ('6', TerminalStyle::Yellow),
        ('e', TerminalStyle::LightYellow),
        ('2', TerminalStyle::Green),
        ('a', TerminalStyle::LightGreen),
        ('b', TerminalStyle::LightBlue),
        ('3', TerminalStyle::LightBlue),
        ('1', TerminalStyle::Blue),
        ('9', TerminalStyle::Blue),
        ('d', TerminalStyle::LightMagenta),
        ('5', TerminalStyle::Magenta),
        ('f', TerminalStyle::White),
        ('7', TerminalStyle::LightWhite),
        ('8', TerminalStyle::LightBlack),
        ('0', TerminalStyle::Black),
        ('l', TerminalStyle::Bold),
        ('m', TerminalStyle::CrossedOut),
        ('n', TerminalStyle::Underline),
        ('o', TerminalStyle::Italic),
        ('r', TerminalStyle::Reset),
    ]
}

/// The formatting codes and their terminal styles, in the order in which
/// log lines replace them.
pub fn terminal_codes() -> (r: Vec<(char, TerminalStyle)>)
    ensures
        r@ == spec_terminal_codes(),
{
    let r = vec![
        ('4', TerminalStyle::Red),
        ('c', TerminalStyle::LightRed),
        ('6', TerminalStyle::Yellow),
        ('e', TerminalStyle::LightYellow),
        ('2', TerminalStyle::Green),
        ('a', TerminalStyle::LightGreen),
        ('b', TerminalStyle::LightBlue),
        ('3', TerminalStyle::LightBlue),
        ('1', TerminalStyle::Blue),
        ('9', TerminalStyle::Blue),
        ('d', TerminalStyle::LightMagenta),
        ('5', TerminalStyle::Magenta),
        ('f', TerminalStyle::White),
        ('7', TerminalStyle::LightWhite),
        ('8', TerminalStyle::LightBlack),
        ('0', TerminalStyle::Black),
        ('l', TerminalStyle::Bold),
        ('m', TerminalStyle::CrossedOut),
        ('n', TerminalStyle::Underline),
        ('o', TerminalStyle::Italic),
        ('r', TerminalStyle::Reset),
    ];
    assert(r@ =~= spec_terminal_codes());
    r
}

} // verus!
