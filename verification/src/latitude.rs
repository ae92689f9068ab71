//! The latitude of an installation site.

use vstd::prelude::*;
use vstd::std_specs::convert::FromSpecImpl;
use crate::scan::{
    chars_of, degrees_of, direction_of, lemma_degrees_ignore_case, lemma_direction_ignores_case,
    lemma_segments_ignore_case, parse_degrees, parse_direction, same_but_case, segments,
    split_segments,
};

verus! {

/// The side of the equator on which a site lies, where that is known.
#[derive(Clone, Copy, Debug, PartialEq, Eq, Structural)]
pub enum Hemisphere {
    North,
    South,
    Unspecified,
}

/// The mathematical value of a latitude: a magnitude in whole degrees and a
/// hemisphere.
pub struct Latitude {
    pub degrees: nat,
    pub hemisphere: Hemisphere,
}

impl Latitude {
    /// The greatest magnitude that a latitude can have, in degrees.
    pub open spec fn max_degrees() -> nat {
        90
    }

    /// The latitude that stands for an input from which none could be read.
    pub open spec fn sentinel() -> Latitude {
        Latitude { degrees: 0, hemisphere: Hemisphere::Unspecified }
    }

    /// The hemisphere that a direction flag stands for: `true` is north,
    /// `false` is south, and no flag leaves it unspecified.
    pub open spec fn hemisphere_of(dir: Option<bool>) -> Hemisphere {
        match dir {
            Some(true) => Hemisphere::North,
            Some(false) => Hemisphere::South,
            None => Hemisphere::Unspecified,
        }
    }

    /// The latitude that a magnitude and a direction flag describe. A
    /// magnitude beyond ninety degrees describes no latitude, and gives the
    /// sentinel.
    pub open spec fn of(deg: nat, dir: Option<bool>) -> Latitude {
        if deg <= Self::max_degrees() {
            Latitude { degrees: deg, hemisphere: Self::hemisphere_of(dir) }
        } else {
            Self::sentinel()
        }
    }
}

/// The latitude that a text writes. Of its segments the first writes the
/// magnitude and, where there are two or more, the last names the direction;
/// what stands between them is passed over. A text without segments, or whose
/// first segment writes no magnitude, gives the sentinel; a last segment that
/// names no direction leaves the hemisphere unspecified.
pub open spec fn parse_latitude(s: Seq<char>) -> Latitude {
    let segs = segments(s);
    if segs.len() == 0 {
        Latitude::sentinel()
    } else {
        match degrees_of(segs.first()) {
            None => Latitude::sentinel(),
            Some(deg) => Latitude::of(
                deg as nat,
                if segs.len() >= 2 {
                    direction_of(segs.last())
                } else {
                    None
                },
            ),
        }
    }
}

/// Every text writes a latitude of at most ninety degrees.
pub proof fn lemma_parse_in_range(s: Seq<char>)
    ensures
        parse_latitude(s).degrees <= Latitude::max_degrees(),
{
}

/// What a text writes depends on its characters alone: two texts with the
/// same characters write the same latitude, and reading them gives the same
/// value, which holds that latitude.
pub proof fn lemma_parse_is_function(a: &str, b: &str)
    requires
        a@ == b@,
    ensures
        parse_latitude(a@) == parse_latitude(b@),
        Lat::parsed(a@) == Lat::parsed(b@),
        Lat::parsed(a@)@ == parse_latitude(a@),
{
}

/// Reading a latitude pays no regard to case: two texts that differ in the
/// case of their letters only write the same latitude. So `n` and `N` name
/// the same hemisphere, and so do `s` and `S`.
pub proof fn lemma_parse_ignores_case(a: Seq<char>, b: Seq<char>)
    requires
        same_but_case(a, b),
    ensures
        parse_latitude(a) == parse_latitude(b),
{
    lemma_segments_ignore_case(a, b);
    let (sa, sb) = (segments(a), segments(b));
    if sa.len() > 0 {
        assert(same_but_case(sa[0], sb[0]));
        assert(same_but_case(sa[sa.len() - 1], sb[sb.len() - 1]));
        lemma_degrees_ignore_case(sa.first(), sb.first());
        lemma_direction_ignores_case(sa.last(), sb.last());
    }
}

/// A latitude as the program holds it. The magnitude never exceeds ninety
/// degrees.
#[derive(Clone, Copy, Debug, PartialEq, Eq, Structural)]
pub struct Lat {
    deg: u8,
    dir: Option<bool>,
}

impl View for Lat {
    type V = Latitude;

    closed spec fn view(&self) -> Latitude {
        Latitude { degrees: self.deg as nat, hemisphere: Latitude::hemisphere_of(self.dir) }
    }
}

impl Lat {
    #[verifier::type_invariant]
    spec fn in_range(self) -> bool {
        self.deg <= 90
    }

    /// Builds a latitude from a magnitude and a direction flag (`Some(true)`
    /// for north, `Some(false)` for south).
    pub fn new(deg: u8, dir: Option<bool>) -> (lat: Self)
        ensures
            lat@ == Latitude::of(deg as nat, dir),
    {
        if deg <= 90 {
            Lat { deg, dir }
        } else {
            Lat { deg: 0, dir: None }
        }
    }

    /// Reads a latitude from free-form text such as `42 N`, `42.5 N`,
    /// `42,5,N` or `37'21 N`. Text from which none can be read gives the
    /// sentinel: zero degrees, hemisphere unspecified.
    pub fn parse(text: &str) -> (lat: Self)
        ensures
            lat@ == parse_latitude(text@),
            lat == Self::parsed(text@),
            lat@.degrees <= Latitude::max_degrees(),
    {
        let chars = chars_of(text);
        let segs = split_segments(&chars);
        let count = segs.len();
        proof {
            assert(segs.deep_view().len() == count);
            if count > 0 {
                assert(segs.deep_view()[0] =~= segs@[0]@);
                assert(segs.deep_view()[count - 1] =~= segs@[count - 1]@);
            }
        }
        if count == 0 {
            return Lat { deg: 0, dir: None };
        }
        match parse_degrees(&segs[0]) {
            None => Lat { deg: 0, dir: None },
            Some(deg) => {
                let dir = if count >= 2 {
                    parse_direction(&segs[count - 1])
                } else {
                    None
                };
                Lat { deg, dir }
            },
        }
    }

    /// The value that holds the latitude which `s` writes.
    pub closed spec fn parsed(s: Seq<char>) -> Lat {
        let l = parse_latitude(s);
        Lat {
            deg: l.degrees as u8,
            dir: match l.hemisphere {
                Hemisphere::North => Some(true),
                Hemisphere::South => Some(false),
                Hemisphere::Unspecified => None,
            },
        }
    }

    /// The magnitude, in whole degrees.
    pub fn degrees(&self) -> (deg: u8)
        ensures
            deg == self@.degrees,
            deg <= Latitude::max_degrees(),
    {
        proof {
            use_type_invariant(self);
        }
        self.deg
    }

    /// The hemisphere.
    pub fn hemisphere(&self) -> (hemisphere: Hemisphere)
        ensures
            hemisphere == self@.hemisphere,
    {
        match self.dir {
            Some(true) => Hemisphere::North,
            Some(false) => Hemisphere::South,
            None => Hemisphere::Unspecified,
        }
    }
}

impl From<String> for Lat {
    /// Reads a latitude from free-form text, as `Lat::parse` does.
    fn from(s: String) -> (lat: Lat)
        ensures
            lat@ == parse_latitude(s@),
            lat@.degrees <= Latitude::max_degrees(),
    {
        Lat::parse(s.as_str())
    }
}

impl FromSpecImpl<String> for Lat {
    open spec fn obeys_from_spec() -> bool {
        true
    }

    open spec fn from_spec(s: String) -> Lat {
        Lat::parsed(s@)
    }
}

} // verus!
