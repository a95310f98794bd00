use chromix::splash::{body_colors, classify_word, highlight_example, wordmark_colors, Theme, WordClass};

#[test]
fn word_classes() {
    assert_eq!(classify_word("chromix"), WordClass::Command);
    assert_eq!(classify_word("convert"), WordClass::Subcommand);
    assert_eq!(classify_word("export"), WordClass::Subcommand);
    assert_eq!(classify_word("--json"), WordClass::Flag);
    assert_eq!(classify_word("3b82f6"), WordClass::HexValue);
    assert_eq!(classify_word("hello"), WordClass::Plain);
    assert_eq!(classify_word("-x"), WordClass::Plain);
}

#[test]
fn highlight_line() {
    let line = highlight_example("chromix  scale 3b82f6 # print a ramp", "C", "D");
    assert_eq!(
        line,
        "C\x1b[1mchromix\x1b[0m  \x1b[38;2;198;160;246mscale\x1b[0m \x1b[38;2;126;196;145m3b82f6\x1b[0m D# print a ramp\x1b[0m"
    );
    let plain = highlight_example("a --b", "C", "D");
    assert_eq!(plain, "Da\x1b[0m \x1b[38;2;138;170;240m--b\x1b[0m");
    assert_eq!(highlight_example(" a ", "C", "D"), " Da\x1b[0m ");
    assert_eq!(highlight_example("a\tb", "C", "D"), "Da\tb\x1b[0m");
    assert_eq!(highlight_example("#only", "C", "D"), "D#only\x1b[0m");
}

#[test]
fn palettes() {
    assert_eq!(wordmark_colors(Theme::Dark)[0], (245, 245, 245));
    assert_eq!(wordmark_colors(Theme::Light)[4], (160, 160, 160));
    let (subtle, dim, rule, cmd, _digit) = body_colors(Theme::Light);
    assert_eq!(subtle, "\x1b[38;2;80;80;80m");
    assert_eq!(dim, "\x1b[38;2;120;120;120m");
    assert_eq!(rule, "\x1b[38;2;175;175;175m");
    assert_eq!(cmd, "\x1b[38;2;30;30;30m");
}
