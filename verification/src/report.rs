//! The advisory formatter: the lines of text in which a placement is told.

use vstd::prelude::*;
use vstd::string::StringExecFns;
use crate::tilt::{OrientationHint, TiltAdvisory};

verus! {

/// The line that tells the direction in which to face the panel. Where the
/// hemisphere is unknown, it gives the rule for either one.
pub open spec fn orientation_text(hint: OrientationHint) -> Seq<char> {
    match hint {
        OrientationHint::FaceSouth => "Orientation: south"@,
        OrientationHint::FaceNorth => "Orientation: north"@,
        OrientationHint::HemisphereUnknown =>
            "Direction not given. In the Northern Hemisphere, point your solar panel true south. In the Southern Hemisphere, point your solar panel true north."@,
    }
}

/// The character that writes the digit `d`.
pub open spec fn digit_char(d: nat) -> char
    recommends
        d < 10,
{
    ('0' as nat + d) as char
}

/// The decimal numeral of `n`, without leading zeros.
pub open spec fn numeral(n: nat) -> Seq<char>
    decreases n,
{
    if n < 10 {
        seq![digit_char(n)]
    } else {
        numeral(n / 10).push(digit_char(n % 10))
    }
}

/// A number of hundredths written as a decimal fraction, as short as it can
/// be: no fraction where the number is whole, and no zero at the end of one.
pub open spec fn decimal_text(hundredths: nat) -> Seq<char> {
    let whole = numeral(hundredths / 100);
    let tenths = digit_char((hundredths / 10) % 10);
    if hundredths % 100 == 0 {
        whole
    } else if hundredths % 10 == 0 {
        whole + seq!['.', tenths]
    } else {
        whole + seq!['.', tenths, digit_char(hundredths % 10)]
    }
}

/// The line that tells a tilt of `hundredths` hundredths of a degree.
pub open spec fn inclination_text(hundredths: nat) -> Seq<char> {
    "Inclination: "@ + decimal_text(hundredths) + "\u{b0}"@
}

/// The whole report on a placement: the orientation line, the tilt line and
/// an empty line.
pub open spec fn report_text(advisory: TiltAdvisory) -> Seq<char> {
    orientation_text(advisory.orientation_hint) + "\n"@ + inclination_text(
        advisory.tilt_hundredths as nat,
    ) + "\n\n"@
}

/// Writes the orientation line for `hint`.
pub fn orientation_line(hint: OrientationHint) -> (line: String)
    ensures
        line@ == orientation_text(hint),
{
    match hint {
        OrientationHint::FaceSouth => String::from_str("Orientation: south"),
        OrientationHint::FaceNorth => String::from_str("Orientation: north"),
        OrientationHint::HemisphereUnknown => String::from_str(
            "Direction not given. In the Northern Hemisphere, point your solar panel true south. In the Southern Hemisphere, point your solar panel true north.",
        ),
    }
}

/// The numeral of one digit.
fn digit_str(d: u16) -> (s: &'static str)
    requires
        d < 10,
    ensures
        s@ == seq![digit_char(d as nat)],
{
    proof {
        reveal_strlit("0");
        reveal_strlit("1");
        reveal_strlit("2");
        reveal_strlit("3");
        reveal_strlit("4");
        reveal_strlit("5");
        reveal_strlit("6");
        reveal_strlit("7");
        reveal_strlit("8");
        reveal_strlit("9");
    }
    match d {
        0 => "0",
        1 => "1",
        2 => "2",
        3 => "3",
        4 => "4",
        5 => "5",
        6 => "6",
        7 => "7",
        8 => "8",
        _ => "9",
    }
}

/// Writes the decimal numeral of `n` at the end of `out`.
fn push_numeral(out: &mut String, n: u16)
    ensures
        final(out)@ == old(out)@ + numeral(n as nat),
    decreases n,
{
    if n >= 10 {
        push_numeral(out, n / 10);
    }
    out.append(digit_str(n % 10));
    proof {
        let before = old(out)@;
        if n >= 10 {
            assert(before + numeral(n as nat / 10) + seq![digit_char(n as nat % 10)] =~= before
                + numeral(n as nat));
        }
    }
}

/// Writes `hundredths` as a decimal fraction.
pub fn decimal(hundredths: u16) -> (text: String)
    ensures
        text@ == decimal_text(hundredths as nat),
{
    let mut text = String::new();
    push_numeral(&mut text, hundredths / 100);
    let tenths: u16 = (hundredths / 10) % 10;
    let last: u16 = hundredths % 10;
    if hundredths % 100 != 0 {
        text.append(".");
        text.append(digit_str(tenths));
        if last != 0 {
            text.append(digit_str(last));
        }
    }
    proof {
        reveal_strlit(".");
        assert(text@ =~= decimal_text(hundredths as nat));
    }
    text
}

/// Writes the tilt line for a tilt of `hundredths` hundredths of a degree.
pub fn inclination_line(hundredths: u16) -> (line: String)
    ensures
        line@ == inclination_text(hundredths as nat),
{
    let mut line = String::from_str("Inclination: ");
    let number = decimal(hundredths);
    line.append(number.as_str());
    line.append("\u{b0}");
    line
}

/// Writes the report on a placement.
pub fn render(advisory: TiltAdvisory) -> (report: String)
    ensures
        report@ == report_text(advisory),
{
    let mut report = orientation_line(advisory.orientation_hint);
    report.append("\n");
    let inclination = inclination_line(advisory.tilt_hundredths);
    report.append(inclination.as_str());
    report.append("\n\n");
    report
}

} // verus!
