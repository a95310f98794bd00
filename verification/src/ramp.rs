use vstd::prelude::*;

verus! {

/// The Tailwind-style step numbers of a default scale, lightest first.
pub open spec fn spec_default_steps() -> Seq<u16> {
    seq![50, 100, 200, 300, 400, 500, 600, 700, 800, 900, 950]
}

/// The lightness of the lightest default step, in thousandths.
pub const LIGHTEST_MILLI: u16 = 971;

/// The lightness of the darkest default step, in thousandths.
pub const DARKEST_MILLI: u16 = 220;

/// The tuned OKLCH lightness, in thousandths, of each default step number;
/// other step numbers have none.
pub open spec fn spec_tuned_lightness(step: u16) -> Option<u16> {
    if step == 50 {
        Some(971u16)
    } else if step == 100 {
        Some(936u16)
    } else if step == 200 {
        Some(885u16)
    } else if step == 300 {
        Some(808u16)
    } else if step == 400 {
        Some(704u16)
    } else if step == 500 {
        Some(610u16)
    } else if step == 600 {
        Some(530u16)
    } else if step == 700 {
        Some(452u16)
    } else if step == 800 {
        Some(378u16)
    } else if step == 900 {
        Some(310u16)
    } else if step == 950 {
        Some(220u16)
    } else {
        None
    }
}

/// The default step numbers, lightest first.
pub fn default_steps() -> (v: Vec<u16>)
    ensures
        v@ == spec_default_steps(),
{
    let v: Vec<u16> = vec![50, 100, 200, 300, 400, 500, 600, 700, 800, 900, 950];
    assert(v@ =~= spec_default_steps());
    v
}

/// The tuned lightness, in thousandths, of a step number. The table is
/// keyed by step number, not by position in the scale.
pub fn tuned_lightness_milli(step: u16) -> (l: Option<u16>)
    ensures
        l == spec_tuned_lightness(step),
{
    match step {
        50 => Some(971),
        100 => Some(936),
        200 => Some(885),
        300 => Some(808),
        400 => Some(704),
        500 => Some(610),
        600 => Some(530),
        700 => Some(452),
        800 => Some(378),
        900 => Some(310),
        950 => Some(220),
        _ => None,
    }
}

/// Every default step has a tuned lightness, and a scale over the default
/// steps darkens strictly from step to step, from the lightest tuned value to
/// the darkest.
pub proof fn lemma_default_scale_darkens()
    ensures
        forall|i: int|
            0 <= i < spec_default_steps().len() ==> #[trigger] spec_tuned_lightness(
                spec_default_steps()[i],
            ) is Some,
        forall|i: int, j: int|
            0 <= i < j < spec_default_steps().len() ==> #[trigger] spec_tuned_lightness(
                spec_default_steps()[i],
            )->0 > #[trigger] spec_tuned_lightness(spec_default_steps()[j])->0,
        spec_tuned_lightness(spec_default_steps()[0]) == Some(LIGHTEST_MILLI),
        spec_tuned_lightness(spec_default_steps().last()) == Some(DARKEST_MILLI),
{
}

/// Every tuned lightness lies between the darkest and the lightest.
pub proof fn lemma_tuned_within_range(step: u16)
    ensures
        spec_tuned_lightness(step) matches Some(l) ==> DARKEST_MILLI <= l <= LIGHTEST_MILLI,
{
}

/// The tuned lightness table, in thousandths, step by step over the default
/// steps: 50 → 971, 100 → 936, 200 → 885, 300 → 808, 400 → 704, 500 → 610,
/// 600 → 530, 700 → 452, 800 → 378, 900 → 310, 950 → 220.
pub proof fn lemma_tuned_table()
    ensures
        forall|i: int|
            0 <= i < 11 ==> #[trigger] spec_tuned_lightness(spec_default_steps()[i]) == Some(
                seq![971u16, 936, 885, 808, 704, 610, 530, 452, 378, 310, 220][i],
            ),
        spec_default_steps() == seq![50u16, 100, 200, 300, 400, 500, 600, 700, 800, 900, 950],
{
}

/// Only the default steps are tuned: any other step number has no tuned
/// lightness.
pub proof fn lemma_only_default_steps_tuned(step: u16)
    ensures
        spec_tuned_lightness(step) is Some <==> spec_default_steps().contains(step),
{
    let d = spec_default_steps();
    if spec_tuned_lightness(step) is Some {
        let i: int = if step == 50 { 0 } else if step == 100 { 1 } else if step == 200 { 2 } else if step == 300 { 3 } else if step == 400 { 4 } else if step == 500 { 5 } else if step == 600 { 6 } else if step == 700 { 7 } else if step == 800 { 8 } else if step == 900 { 9 } else { 10 };
        assert(d[i] == step);
    }
}

} // verus!
