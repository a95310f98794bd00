use chromix::tokens::{css_variables, js_key, tailwind_config};

#[test]
fn js_keys() {
    assert_eq!(js_key("primary"), "primary");
    assert_eq!(js_key("_brand2"), "_brand2");
    assert_eq!(js_key("2brand"), "\"2brand\"");
    assert_eq!(js_key("my-brand"), "\"my-brand\"");
    assert_eq!(js_key(""), "\"\"");
}

#[test]
fn tailwind_file() {
    let tokens: Vec<(u16, String)> = vec![(50, "oklch(97.1% 0.013 257.4)".into()), (100, "X".into())];
    assert_eq!(
        tailwind_config("primary", &tokens),
        "/** Generated by chromix. Drop into your tailwind.config.js. */\nmodule.exports = {\n  theme: {\n    extend: {\n      colors: {\n        primary: {\n          \"50\": \"oklch(97.1% 0.013 257.4)\",\n          \"100\": \"X\",\n        },\n      },\n    },\n  },\n};\n"
    );
}

#[test]
fn css_file() {
    let tokens: Vec<(u16, String)> = vec![(50, "A".into()), (950, "B".into())];
    assert_eq!(
        css_variables("brand", &tokens),
        "/* Generated by chromix. */\n:root {\n  --brand-50: A;\n  --brand-950: B;\n}\n"
    );
}

#[test]
fn json_file() {
    let tokens: Vec<(u16, String)> = vec![(50, "#f0f6ff".into()), (100, "#deebff".into()), (950, "#001743".into())];
    assert_eq!(
        chromix::tokens::json_tokens("primary", &tokens),
        "{\n  \"primary\": {\n    \"100\": \"#deebff\",\n    \"50\": \"#f0f6ff\",\n    \"950\": \"#001743\"\n  }\n}\n"
    );
    let none: Vec<(u16, String)> = vec![];
    assert_eq!(chromix::tokens::json_tokens("b", &none), "{\n  \"b\": {}\n}\n");
}

#[test]
fn json_text_gets_newline() {
    assert_eq!(chromix::tokens::json_file_text("{}".to_string()), "{}\n");
}
