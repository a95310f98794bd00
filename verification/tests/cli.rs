use chromix::cli::{ColorArg, ExportArgs};

fn export_args(json: bool, tailwind: bool, css: bool) -> ExportArgs {
    ExportArgs {
        color_arg: ColorArg { color: "3b82f6".into() },
        steps: None,
        name: "primary".into(),
        json,
        tailwind,
        css,
        out: ".".into(),
    }
}

#[test]
fn export_needs_a_format() {
    assert!(!export_args(false, false, false).wants_any_format());
    assert!(export_args(true, false, false).wants_any_format());
    assert!(export_args(false, true, false).wants_any_format());
    assert!(export_args(false, false, true).wants_any_format());
}
