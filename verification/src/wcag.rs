use vstd::prelude::*;
use crate::color::Srgb;

verus! {

/// What a swatch is best used for against a white page.
#[derive(Clone, Copy, Debug, PartialEq, Eq, Structural)]
pub enum Usage {
    Text,
    Border,
    Background,
}

/// The WCAG 2.x conformance level reached.
#[derive(Clone, Copy, Debug, PartialEq, Eq, Structural)]
pub enum Rating {
    Aaa,
    Aa,
    Fail,
}

/// Where a contrast ratio stands against the WCAG thresholds:
/// `Enhanced` at 7 or more (AAA normal text), `Normal` at 4.5 or more
/// (AA normal text), `Large` at 3 or more (AA large text and UI borders),
/// `Low` below 3.
#[derive(Clone, Copy, Debug, PartialEq, Eq, Structural)]
pub enum ContrastLevel {
    Low,
    Large,
    Normal,
    Enhanced,
}

/// The advice for one swatch: its usage, the rating it reaches, and, for a
/// background, the text color to put on it.
#[derive(Clone, Copy, Debug, PartialEq, Eq, Structural)]
pub struct Advice {
    pub usage: Usage,
    pub rating: Rating,
    pub on: Option<Srgb>,
}

pub open spec fn usage_label(u: Usage) -> Seq<char> {
    match u {
        Usage::Text => "text"@,
        Usage::Border => "border"@,
        Usage::Background => "bg"@,
    }
}

pub open spec fn rating_label(r: Rating) -> Seq<char> {
    match r {
        Rating::Aaa => "AAA"@,
        Rating::Aa => "AA"@,
        Rating::Fail => "—"@,
    }
}

impl Usage {
    /// The short label of the usage.
    pub fn label(self) -> (l: &'static str)
        ensures
            l@ == usage_label(self),
    {
        match self {
            Usage::Text => "text",
            Usage::Border => "border",
            Usage::Background => "bg",
        }
    }
}

impl Rating {
    /// The short label of the rating.
    pub fn label(self) -> (l: &'static str)
        ensures
            l@ == rating_label(self),
    {
        match self {
            Rating::Aaa => "AAA",
            Rating::Aa => "AA",
            Rating::Fail => "—",
        }
    }
}

/// Pure white.
pub open spec fn spec_white() -> Srgb {
    Srgb { r: 255, g: 255, b: 255 }
}

/// Pure black.
pub open spec fn spec_black() -> Srgb {
    Srgb { r: 0, g: 0, b: 0 }
}

/// Pure white.
pub fn white() -> (c: Srgb)
    ensures
        c == spec_white(),
{
    Srgb { r: 255, g: 255, b: 255 }
}

/// Pure black.
pub fn black() -> (c: Srgb)
    ensures
        c == spec_black(),
{
    Srgb { r: 0, g: 0, b: 0 }
}

/// The rating that text of a given contrast reaches.
pub open spec fn text_rating(level: ContrastLevel) -> Rating {
    match level {
        ContrastLevel::Enhanced => Rating::Aaa,
        ContrastLevel::Normal => Rating::Aa,
        _ => Rating::Fail,
    }
}

/// The advice for a swatch from its contrast against white (`vs_white`),
/// against black (`vs_black`), and whether the contrast against black is at
/// least that against white.
///
/// A swatch dark enough to read on white is text (AAA or AA); one that
/// reaches only the large-text threshold is a border (AA); a lighter one is a
/// background, carrying black or white text, whichever contrasts more (black
/// on a tie), rated by that contrast.
pub open spec fn spec_advise(
    vs_white: ContrastLevel,
    vs_black: ContrastLevel,
    black_not_lower: bool,
) -> Advice {
    match vs_white {
        ContrastLevel::Enhanced => Advice { usage: Usage::Text, rating: Rating::Aaa, on: None },
        ContrastLevel::Normal => Advice { usage: Usage::Text, rating: Rating::Aa, on: None },
        ContrastLevel::Large => Advice { usage: Usage::Border, rating: Rating::Aa, on: None },
        ContrastLevel::Low => Advice {
            usage: Usage::Background,
            rating: text_rating(if black_not_lower { vs_black } else { vs_white }),
            on: Some(if black_not_lower { spec_black() } else { spec_white() }),
        },
    }
}

/// Advice for a swatch, given how its contrast ratios against white and
/// black compare with the WCAG thresholds.
pub fn advise(vs_white: ContrastLevel, vs_black: ContrastLevel, black_not_lower: bool) -> (a: Advice)
    ensures
        a == spec_advise(vs_white, vs_black, black_not_lower),
{
    match vs_white {
        ContrastLevel::Enhanced => Advice { usage: Usage::Text, rating: Rating::Aaa, on: None },
        ContrastLevel::Normal => Advice { usage: Usage::Text, rating: Rating::Aa, on: None },
        ContrastLevel::Large => Advice { usage: Usage::Border, rating: Rating::Aa, on: None },
        ContrastLevel::Low => {
            let (on, on_level) = if black_not_lower {
                (black(), vs_black)
            } else {
                (white(), vs_white)
            };
            let rating = match on_level {
                ContrastLevel::Enhanced => Rating::Aaa,
                ContrastLevel::Normal => Rating::Aa,
                _ => Rating::Fail,
            };
            Advice { usage: Usage::Background, rating, on: Some(on) }
        },
    }
}

/// A text color is proposed exactly for backgrounds; only a background can
/// fail; text is advised exactly when the contrast against white reaches the
/// AA normal-text threshold; a background carries whichever of black and
/// white contrasts more with it.
pub proof fn lemma_advice_shape(
    vs_white: ContrastLevel,
    vs_black: ContrastLevel,
    black_not_lower: bool,
)
    ensures
        ({
            let a = spec_advise(vs_white, vs_black, black_not_lower);
            &&& (a.on is Some <==> a.usage == Usage::Background)
            &&& (a.rating == Rating::Fail ==> a.usage == Usage::Background)
            &&& (a.usage == Usage::Text <==> (vs_white == ContrastLevel::Enhanced || vs_white
                == ContrastLevel::Normal))
            &&& (a.usage == Usage::Background ==> (a.on == Some(spec_black()) <==> black_not_lower))
            &&& (a.usage == Usage::Background ==> a.on == Some(spec_black()) || a.on == Some(
                spec_white(),
            ))
        }),
{
}

/// The rating follows the contrast that the advice rests on: text is AAA
/// exactly at the enhanced level against white and AA otherwise; a border is
/// AA; a background is AAA at the enhanced level and AA at the normal level
/// of the color put on it, and fails below.
pub proof fn lemma_advice_rating(
    vs_white: ContrastLevel,
    vs_black: ContrastLevel,
    black_not_lower: bool,
)
    ensures
        ({
            let a = spec_advise(vs_white, vs_black, black_not_lower);
            let on_level = if black_not_lower { vs_black } else { vs_white };
            &&& a.usage == Usage::Text ==> (a.rating == Rating::Aaa <==> vs_white
                == ContrastLevel::Enhanced) && a.rating != Rating::Fail
            &&& (a.usage == Usage::Border <==> vs_white == ContrastLevel::Large)
            &&& a.usage == Usage::Border ==> a.rating == Rating::Aa
            &&& (a.usage == Usage::Background <==> vs_white == ContrastLevel::Low)
            &&& a.usage == Usage::Background ==> {
                &&& (a.rating == Rating::Aaa <==> on_level == ContrastLevel::Enhanced)
                &&& (a.rating == Rating::Aa <==> on_level == ContrastLevel::Normal)
            }
        }),
{
}

/// The labels are `text`, `border` and `bg`, and `AAA`, `AA` and a dash;
/// no two are the same.
pub proof fn lemma_labels()
    ensures
        usage_label(Usage::Text) == seq!['t', 'e', 'x', 't'],
        usage_label(Usage::Border) == seq!['b', 'o', 'r', 'd', 'e', 'r'],
        usage_label(Usage::Background) == seq!['b', 'g'],
        rating_label(Rating::Aaa) == seq!['A', 'A', 'A'],
        rating_label(Rating::Aa) == seq!['A', 'A'],
        rating_label(Rating::Fail) == seq!['\u{2014}'],
{
    reveal_strlit("text");
    reveal_strlit("border");
    reveal_strlit("bg");
    reveal_strlit("AAA");
    reveal_strlit("AA");
    reveal_strlit("—");
    assert(usage_label(Usage::Text) =~= seq!['t', 'e', 'x', 't']);
    assert(usage_label(Usage::Border) =~= seq!['b', 'o', 'r', 'd', 'e', 'r']);
    assert(usage_label(Usage::Background) =~= seq!['b', 'g']);
    assert(rating_label(Rating::Aaa) =~= seq!['A', 'A', 'A']);
    assert(rating_label(Rating::Aa) =~= seq!['A', 'A']);
    assert(rating_label(Rating::Fail) =~= seq!['\u{2014}']);
}

} // verus!
