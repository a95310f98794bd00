use chromix::color::Srgb;
use chromix::render::{color_lines, input_header_lines, prompt_box_lines, ramp_lines, RampRow};

#[test]
fn ramp_rows_and_heading() {
    let rows = vec![
        RampRow { step: 50, css: "x".into(), hex: "#f0f6ff".into(), srgb: Srgb::new(240, 246, 255) },
        RampRow { step: 950, css: "oklch(97.1% 0.013 257.4)!".into(), hex: "#001743".into(), srgb: Srgb::new(0, 23, 67) },
    ];
    let lines = ramp_lines("brand", &rows);
    assert_eq!(lines.len(), 8);
    assert_eq!(lines[0], "");
    assert_eq!(
        lines[1],
        "  \x1b[1m\x1b[38;2;235;235;235mbrand\x1b[39m\x1b[0m · \x1b[38;2;130;130;130m2\x1b[39m steps"
    );
    assert_eq!(lines[2], "");
    assert_eq!(
        lines[3],
        format!(
            "  \x1b[48;2;240;246;255m      \x1b[0m \x1b[38;2;200;200;200m  50\x1b[39m  \x1b[38;2;200;200;200mx{}\x1b[39m  \x1b[38;2;130;130;130m#f0f6ff\x1b[39m",
            " ".repeat(23)
        )
    );
    assert_eq!(
        lines[4],
        "  \x1b[48;2;0;23;67m      \x1b[0m \x1b[38;2;200;200;200m 950\x1b[39m  \x1b[38;2;200;200;200moklch(97.1% 0.013 257.4)!\x1b[39m  \x1b[38;2;130;130;130m#001743\x1b[39m"
    );
    assert_eq!(lines[5], "");
    assert_eq!(
        lines[6],
        "  Tips: use \x1b[1m\x1b[38;2;235;235;235mchromix export\x1b[39m\x1b[0m to export as json"
    );
    assert_eq!(lines[7], "");
}

#[test]
fn converted_color_lines() {
    let c = Srgb::new(59, 130, 246);
    let plain = color_lines("oklch(62.3% 0.188 259.8)", c, "#3b82f6", false);
    assert_eq!(plain.len(), 5);
    assert_eq!(plain[1], "  \x1b[1m\x1b[38;2;126;196;145m✓\x1b[39m\x1b[0m converted to OKLCH");
    assert_eq!(
        plain[3],
        "  \x1b[48;2;59;130;246m      \x1b[0m  \x1b[1m\x1b[38;2;235;235;235moklch(62.3% 0.188 259.8)\x1b[39m\x1b[0m  | \x1b[38;2;130;130;130m#3b82f6\x1b[39m"
    );
    let copied = color_lines("A", c, "#3b82f6", true);
    assert_eq!(copied.len(), 7);
    assert_eq!(
        copied[3],
        "  \x1b[48;2;59;130;246m      \x1b[0m  \x1b[1m\x1b[38;2;235;235;235mA\x1b[39m\x1b[0m \x1b[38;2;126;196;145m📋\x1b[39m  | \x1b[38;2;130;130;130m#3b82f6\x1b[39m"
    );
    assert_eq!(copied[5], "  \x1b[38;2;130;130;130mcopied to clipboard\x1b[39m");
}

#[test]
fn input_header() {
    let lines = input_header_lines(Srgb::new(1, 2, 3), "#010203");
    assert_eq!(
        lines,
        vec![
            "".to_string(),
            "  \x1b[48;2;1;2;3m      \x1b[0m  \x1b[38;2;130;130;130minput\x1b[39m  \x1b[38;2;200;200;200m#010203\x1b[39m".to_string(),
        ]
    );
}

#[test]
fn prompt_box() {
    let content: Vec<String> = vec!["hello".into()];
    let lines = prompt_box_lines("Copy Prompt", &content);
    assert_eq!(lines.len(), 7);
    assert_eq!(
        lines[1],
        format!(
            "  \x1b[38;2;130;130;130m──\x1b[39m \x1b[38;2;200;200;200mCopy Prompt\x1b[39m \x1b[38;2;130;130;130m{}\x1b[39m",
            "─".repeat(29)
        )
    );
    assert_eq!(lines[3], "  \x1b[38;2;200;200;200mhello\x1b[39m");
    assert_eq!(lines[5], format!("  \x1b[38;2;130;130;130m{}\x1b[39m", "─".repeat(44)));
}
