use chromix::gradient::{tailwind_stops, variant_label, Appearance, GradientKind};

#[test]
fn dark_is_lighter_than_light() {
    assert!(Appearance::Dark.mid_lightness_milli() > Appearance::Light.mid_lightness_milli());
    assert_eq!(Appearance::Light.mid_lightness_milli(), 620);
    assert_eq!(Appearance::Dark.mono_band_milli(), (880, 600));
    assert_eq!(Appearance::Light.mono_band_milli(), (740, 420));
}

#[test]
fn variant_labels() {
    assert_eq!(variant_label(GradientKind::Analogous), "analogous");
    assert_eq!(variant_label(GradientKind::Complementary), "complementary");
    assert_eq!(variant_label(GradientKind::Monochromatic), "monochromatic");
}

#[test]
fn tailwind_stop_classes() {
    let css: Vec<String> = vec!["oklch(1 2 3)".into(), "b c".into(), "mid".into(), "x".into(), "last one".into()];
    assert_eq!(
        tailwind_stops("dark:", &css),
        "dark:from-[oklch(1_2_3)] dark:via-[mid] dark:to-[last_one]"
    );
    let one: Vec<String> = vec!["a b".into()];
    assert_eq!(tailwind_stops("", &one), "from-[a_b] via-[a_b] to-[a_b]");
    let two: Vec<String> = vec!["p".into(), "q".into()];
    assert_eq!(tailwind_stops("", &two), "from-[p] via-[q] to-[q]");
}
