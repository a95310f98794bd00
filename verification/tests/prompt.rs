use chromix::gradient::GradientKind;
use chromix::prompt::{agent_prompt_lines, gradient_prompt_lines, prompt_rule_widths};

#[test]
fn rule_widths() {
    let lines: Vec<String> = vec!["short".into()];
    assert_eq!(prompt_rule_widths("Copy Prompt", &lines), (44, 29));
    let long: Vec<String> = vec!["x".repeat(60), "é".repeat(50)];
    assert_eq!(prompt_rule_widths("Copy Prompt", &long), (60, 45));
    let none: Vec<String> = vec![];
    let title = "t".repeat(50);
    assert_eq!(prompt_rule_widths(&title, &none), (54, 0));
}

#[test]
fn agent_prompt() {
    let entries: Vec<(u16, String)> = vec![(50, "oklch(97.1% 0.013 257.4)".into()), (500, "A".into())];
    let lines = agent_prompt_lines("brand", &entries);
    let n = lines.len();
    assert_eq!(lines[n - 5], "");
    assert_eq!(lines[n - 4], "@theme {");
    assert_eq!(lines[n - 3], "  --color-brand-50:  oklch(97.1% 0.013 257.4);");
    assert_eq!(lines[n - 2], "  --color-brand-500: A;");
    assert_eq!(lines[n - 1], "}");
    let intro = lines[..n - 5].join(" ");
    assert_eq!(
        intro,
        "Add this OKLCH color scale to my Tailwind theme as \"brand\" color tokens (v4 @theme; for v3, nest these under theme.extend.colors.brand). Keep the OKLCH values as the source of truth:"
    );
    for l in &lines[..n - 5] {
        assert!(l.chars().count() <= 56);
    }
}

#[test]
fn gradient_prompt() {
    let pairs: Vec<(GradientKind, Vec<String>, Vec<String>)> = vec![(
        GradientKind::Complementary,
        vec!["a".into(), "b".into(), "c".into()],
        vec!["d e".into()],
    )];
    let lines = gradient_prompt_lines(&pairs);
    let n = lines.len();
    assert_eq!(lines[n - 3], "");
    assert_eq!(lines[n - 2], "complementary");
    assert_eq!(
        lines[n - 1],
        "  bg-linear-to-r from-[a] via-[b] to-[c] dark:from-[d_e] dark:via-[d_e] dark:to-[d_e]"
    );
}
