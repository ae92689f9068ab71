//! From a mode and the text of a latitude to the advice that is printed.

use vstd::prelude::*;
use vstd::string::StringExecFns;
use crate::latitude::{parse_latitude, Lat};
use crate::report::{render, report_text};
use crate::tilt::{fixed_placement, naive_calculate, season_calculate, seasonal_notice};

verus! {

/// How the panel is mounted.
#[derive(Clone, Copy, Debug, PartialEq, Eq, Structural)]
pub enum Mode {
    /// One tilt for the whole year.
    Fixed,
    /// A tilt that is changed with the seasons.
    Adjustable,
}

/// The mode that two optional latitudes select, one given for each mode, and
/// the latitude given for it. Exactly one of them selects a mode: neither
/// selects none, and so do both.
pub open spec fn selection<'a>(fixed: Option<&'a str>, adjustable: Option<&'a str>) -> Option<
    (Mode, &'a str),
> {
    match (fixed, adjustable) {
        (Some(text), None) => Some((Mode::Fixed, text)),
        (None, Some(text)) => Some((Mode::Adjustable, text)),
        _ => None,
    }
}

/// Tells which mode was asked for, from the latitude given for the fixed
/// mode and the one given for the adjustable mode, where there is any.
pub fn select_mode<'a>(fixed: Option<&'a str>, adjustable: Option<&'a str>) -> (choice: Option<
    (Mode, &'a str),
>)
    ensures
        choice == selection(fixed, adjustable),
        choice is Some <==> (fixed is Some) != (adjustable is Some),
{
    match (fixed, adjustable) {
        (Some(text), None) => Some((Mode::Fixed, text)),
        (None, Some(text)) => Some((Mode::Adjustable, text)),
        _ => None,
    }
}

/// The advice for a mode and the text of a latitude: in fixed mode the
/// report on the placement at the latitude that the text writes, in
/// adjustable mode the notice and a line break.
pub open spec fn advice_text(mode: Mode, text: Seq<char>) -> Seq<char> {
    match mode {
        Mode::Fixed => report_text(fixed_placement(parse_latitude(text))),
        Mode::Adjustable => seasonal_notice() + "\n"@,
    }
}

/// Works out the advice for `mode` at the latitude that `text` writes. Every
/// text gets advice: one that writes no latitude is advised as the sentinel
/// latitude is.
pub fn advise(mode: Mode, text: &str) -> (advice: String)
    ensures
        advice@ == advice_text(mode, text@),
{
    let lat = Lat::parse(text);
    match mode {
        Mode::Fixed => render(naive_calculate(lat)),
        Mode::Adjustable => {
            let mut notice = season_calculate(lat);
            notice.append("\n");
            notice
        },
    }
}

} // verus!
