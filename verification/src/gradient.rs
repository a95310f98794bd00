use vstd::prelude::*;
use crate::text::push_char;

verus! {

/// The three gradient variants built from a base color.
#[derive(Clone, Copy, Debug, PartialEq, Eq, Structural)]
pub enum GradientKind {
    Analogous,
    Complementary,
    Monochromatic,
}

/// Which background a gradient is tuned for. The light variant uses darker,
/// more saturated colors that read on a light UI; the dark variant uses
/// lighter colors that read on a dark UI.
#[derive(Clone, Copy, Debug, PartialEq, Eq, Structural)]
pub enum Appearance {
    Light,
    Dark,
}

pub open spec fn spec_mid_lightness(a: Appearance) -> u16 {
    match a {
        Appearance::Light => 620,
        Appearance::Dark => 800,
    }
}

pub open spec fn spec_mono_band(a: Appearance) -> (u16, u16) {
    match a {
        Appearance::Light => (740, 420),
        Appearance::Dark => (880, 600),
    }
}

impl Appearance {
    /// The lightness, in thousandths, held constant by the hue-varying
    /// variants.
    pub fn mid_lightness_milli(self) -> (l: u16)
        ensures
            l == spec_mid_lightness(self),
    {
        match self {
            Appearance::Light => 620,
            Appearance::Dark => 800,
        }
    }

    /// The (lightest, darkest) lightness, in thousandths, of the
    /// monochromatic sweep.
    pub fn mono_band_milli(self) -> (band: (u16, u16))
        ensures
            band == spec_mono_band(self),
    {
        match self {
            Appearance::Light => (740, 420),
            Appearance::Dark => (880, 600),
        }
    }
}

/// The dark variant is lighter than the light one, in its constant
/// lightness and at both ends of its monochromatic sweep, and every
/// monochromatic sweep runs from lighter to darker.
pub proof fn lemma_dark_is_lighter()
    ensures
        spec_mid_lightness(Appearance::Dark) > spec_mid_lightness(Appearance::Light),
        spec_mono_band(Appearance::Dark).0 > spec_mono_band(Appearance::Light).0,
        spec_mono_band(Appearance::Dark).1 > spec_mono_band(Appearance::Light).1,
        forall|a: Appearance| #[trigger] spec_mono_band(a).0 > spec_mono_band(a).1,
        forall|a: Appearance| #[trigger] spec_mid_lightness(a) <= 1000,
{
}

pub open spec fn kind_label(k: GradientKind) -> Seq<char> {
    match k {
        GradientKind::Analogous => "analogous"@,
        GradientKind::Complementary => "complementary"@,
        GradientKind::Monochromatic => "monochromatic"@,
    }
}

/// The name shown for a gradient variant.
pub fn variant_label(kind: GradientKind) -> (l: &'static str)
    ensures
        l@ == kind_label(kind),
{
    match kind {
        GradientKind::Analogous => "analogous",
        GradientKind::Complementary => "complementary",
        GradientKind::Monochromatic => "monochromatic",
    }
}

/// `s` with every space replaced by an underscore (CSS values in Tailwind
/// arbitrary classes cannot hold spaces).
pub open spec fn underscored(s: Seq<char>) -> Seq<char> {
    s.map_values(|c: char| if c == ' ' { '_' } else { c })
}

/// One Tailwind gradient class: `<prefix><util>-[<css>]`.
pub open spec fn stop_class(prefix: Seq<char>, util: Seq<char>, css: Seq<char>) -> Seq<char> {
    prefix + util + "-["@ + underscored(css) + "]"@
}

/// The `from-`, `via-` and `to-` classes of a gradient, taken from its first,
/// middle (at half the length, rounded down) and last stop.
pub open spec fn spec_tailwind_stops(prefix: Seq<char>, css: Seq<Seq<char>>) -> Seq<char> {
    stop_class(prefix, "from"@, css[0]) + " "@ + stop_class(prefix, "via"@, css[(css.len() / 2) as int])
        + " "@ + stop_class(prefix, "to"@, css.last())
}

/// Appends `s` with spaces turned into underscores.
fn push_underscored(out: &mut String, s: &str)
    ensures
        final(out)@ == old(out)@ + underscored(s@),
{
    let v = crate::text::chars_of(s);
    let mut i: usize = 0;
    while i < v.len()
        invariant
            i <= v.len(),
            v@ == s@,
            out@ == old(out)@ + underscored(s@).take(i as int),
        decreases v.len() - i,
    {
        let c = v[i];
        push_char(out, if c == ' ' { '_' } else { c });
        assert(underscored(s@).take(i + 1) =~= underscored(s@).take(i as int).push(
            underscored(s@)[i as int],
        ));
        assert(out@ =~= old(out)@ + underscored(s@).take(i + 1));
        i = i + 1;
    }
    assert(underscored(s@).take(v.len() as int) =~= underscored(s@));
}

fn push_stop_class(out: &mut String, prefix: &str, util: &str, css: &str)
    ensures
        final(out)@ == old(out)@ + stop_class(prefix@, util@, css@),
{
    out.append(prefix);
    out.append(util);
    out.append("-[");
    push_underscored(out, css);
    out.append("]");
    assert(out@ =~= old(out)@ + stop_class(prefix@, util@, css@));
}

/// The Tailwind `from-[…] via-[…] to-[…]` classes for a gradient whose stops
/// have the given OKLCH CSS values; each class starts with `prefix`.
pub fn tailwind_stops(prefix: &str, stop_css: &Vec<String>) -> (s: String)
    requires
        stop_css.len() > 0,
    ensures
        s@ == spec_tailwind_stops(prefix@, crate::text::texts(stop_css@)),
{
    let n = stop_css.len();
    let mut s = String::new();
    push_stop_class(&mut s, prefix, "from", stop_css[0].as_str());
    s.append(" ");
    push_stop_class(&mut s, prefix, "via", stop_css[n / 2].as_str());
    s.append(" ");
    push_stop_class(&mut s, prefix, "to", stop_css[n - 1].as_str());
    proof {
        let css = crate::text::texts(stop_css@);
        assert(css[0] == stop_css@[0]@);
        assert(css[(css.len() / 2) as int] == stop_css@[(n / 2) as int]@);
        assert(css.last() == stop_css@[n - 1]@);
        assert(s@ =~= spec_tailwind_stops(prefix@, css));
    }
    s
}

/// Underscoring keeps the length and every character but the space, which
/// becomes `_`.
pub proof fn lemma_underscored(s: Seq<char>)
    ensures
        underscored(s).len() == s.len(),
        forall|i: int|
            0 <= i < s.len() ==> #[trigger] underscored(s)[i] == (if s[i] == ' ' {
                '_'
            } else {
                s[i]
            }),
{
}

/// The classes are, in order, `from-`, `via-` and `to-` classes of the first
/// stop, of the middle stop `m` (the one with `m` stops before it and as
/// many or one more after it) and of the last stop, each written
/// `<prefix><util>-[<css>]` with spaces turned into `_`, separated by one
/// space.
pub proof fn lemma_tailwind_stops_middle(prefix: Seq<char>, css: Seq<Seq<char>>, m: int)
    requires
        css.len() > 0,
        0 <= m,
        m * 2 <= css.len() < m * 2 + 2,
    ensures
        spec_tailwind_stops(prefix, css) == prefix + "from-["@ + underscored(css[0]) + "] "@
            + prefix + "via-["@ + underscored(css[m]) + "] "@ + prefix + "to-["@ + underscored(
            css[css.len() - 1],
        ) + "]"@,
{
    reveal_strlit("from");
    reveal_strlit("via");
    reveal_strlit("to");
    reveal_strlit("-[");
    reveal_strlit("]");
    reveal_strlit(" ");
    reveal_strlit("from-[");
    reveal_strlit("via-[");
    reveal_strlit("to-[");
    reveal_strlit("] ");
    assert(css.len() / 2 == m);
    assert(spec_tailwind_stops(prefix, css) =~= prefix + "from-["@ + underscored(css[0]) + "] "@
        + prefix + "via-["@ + underscored(css[m]) + "] "@ + prefix + "to-["@ + underscored(
        css[css.len() - 1],
    ) + "]"@);
}

/// The lightness settings, in thousandths: the hue-varying variants hold
/// 620 on light and 800 on dark; the monochromatic sweep runs from 740 to
/// 420 on light and from 880 to 600 on dark.
pub proof fn lemma_lightness_settings()
    ensures
        spec_mid_lightness(Appearance::Light) == 620,
        spec_mid_lightness(Appearance::Dark) == 800,
        spec_mono_band(Appearance::Light) == (740u16, 420u16),
        spec_mono_band(Appearance::Dark) == (880u16, 600u16),
{
}

} // verus!
