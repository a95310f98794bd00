use chromix::color::Srgb;
use chromix::wcag::{advise, black, white, ContrastLevel, Rating, Usage};

// The WCAG 2.x luminance and contrast formulas, as the command computes them,
// so that the advice is checked on the swatches of the WCAG scenarios.
fn relative_luminance(c: Srgb) -> f64 {
    let lin = |v: u8| {
        let s = v as f64 / 255.0;
        if s <= 0.03928 {
            s / 12.92
        } else {
            ((s + 0.055) / 1.055).powf(2.4)
        }
    };
    0.2126 * lin(c.r) + 0.7152 * lin(c.g) + 0.0722 * lin(c.b)
}

fn contrast_ratio(a: Srgb, b: Srgb) -> f64 {
    let l1 = relative_luminance(a);
    let l2 = relative_luminance(b);
    let (hi, lo) = if l1 >= l2 { (l1, l2) } else { (l2, l1) };
    (hi + 0.05) / (lo + 0.05)
}

fn level(ratio: f64) -> ContrastLevel {
    if ratio >= 7.0 {
        ContrastLevel::Enhanced
    } else if ratio >= 4.5 {
        ContrastLevel::Normal
    } else if ratio >= 3.0 {
        ContrastLevel::Large
    } else {
        ContrastLevel::Low
    }
}

fn analyze(swatch: Srgb) -> chromix::wcag::Advice {
    let vs_white = contrast_ratio(swatch, white());
    let vs_black = contrast_ratio(swatch, black());
    advise(level(vs_white), level(vs_black), vs_black >= vs_white)
}

#[test]
fn test_white_analysis() {
    let result = analyze(white());
    assert_eq!(result.usage, Usage::Background);
    assert_eq!(result.rating, Rating::Aaa);
    assert_eq!(result.on, Some(black()));
}

#[test]
fn test_black_analysis() {
    let result = analyze(black());
    assert_eq!(result.usage, Usage::Text);
    assert_eq!(result.rating, Rating::Aaa);
    assert_eq!(result.on, None);
}

#[test]
fn test_blue_2563eb() {
    let blue = Srgb::new(0x25, 0x63, 0xeb);
    let result = analyze(blue);
    assert_eq!(result.usage, Usage::Text);
}

#[test]
fn test_light_blue_eff6ff() {
    let light = Srgb::new(0xef, 0xf6, 0xff);
    let result = analyze(light);
    assert_eq!(result.usage, Usage::Background);
    assert_eq!(result.on, Some(black()));
}

#[test]
fn test_gray_949494() {
    let gray = Srgb::new(0x94, 0x94, 0x94);
    let result = analyze(gray);
    assert_eq!(result.usage, Usage::Border);
    assert_eq!(result.rating, Rating::Aa);
}

#[test]
fn advise_by_levels() {
    let a = advise(ContrastLevel::Normal, ContrastLevel::Large, false);
    assert_eq!((a.usage, a.rating, a.on), (Usage::Text, Rating::Aa, None));
    let a = advise(ContrastLevel::Low, ContrastLevel::Large, true);
    assert_eq!((a.usage, a.rating, a.on), (Usage::Background, Rating::Fail, Some(black())));
    let a = advise(ContrastLevel::Low, ContrastLevel::Enhanced, false);
    assert_eq!((a.usage, a.rating, a.on), (Usage::Background, Rating::Fail, Some(white())));
    let a = advise(ContrastLevel::Low, ContrastLevel::Normal, true);
    assert_eq!((a.usage, a.rating, a.on), (Usage::Background, Rating::Aa, Some(black())));
}

#[test]
fn labels() {
    assert_eq!(Usage::Text.label(), "text");
    assert_eq!(Usage::Border.label(), "border");
    assert_eq!(Usage::Background.label(), "bg");
    assert_eq!(Rating::Aaa.label(), "AAA");
    assert_eq!(Rating::Aa.label(), "AA");
    assert_eq!(Rating::Fail.label(), "—");
}
