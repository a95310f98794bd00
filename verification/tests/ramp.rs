use chromix::cli::scale_steps;
use chromix::ramp::{default_steps, tuned_lightness_milli, DARKEST_MILLI, LIGHTEST_MILLI};

#[test]
fn default_steps_are_tailwind() {
    assert_eq!(default_steps(), vec![50, 100, 200, 300, 400, 500, 600, 700, 800, 900, 950]);
}

#[test]
fn default_scale_darkens() {
    let steps = default_steps();
    let l: Vec<u16> = steps.iter().map(|&s| tuned_lightness_milli(s).unwrap()).collect();
    assert_eq!(l[0], LIGHTEST_MILLI);
    assert_eq!(l[l.len() - 1], DARKEST_MILLI);
    for w in l.windows(2) {
        assert!(w[0] > w[1]);
    }
}

#[test]
fn tuned_table_keyed_by_step() {
    assert_eq!(tuned_lightness_milli(500), Some(610));
    assert_eq!(tuned_lightness_milli(50), Some(971));
    assert_eq!(tuned_lightness_milli(950), Some(220));
    assert_eq!(tuned_lightness_milli(550), None);
    assert_eq!(tuned_lightness_milli(0), None);
}

#[test]
fn scale_steps_defaults() {
    assert_eq!(scale_steps(&None), default_steps());
    assert_eq!(scale_steps(&Some(vec![])), default_steps());
    assert_eq!(scale_steps(&Some(vec![100, 300])), vec![100, 300]);
}
