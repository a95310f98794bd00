use vstd::prelude::*;
use owo_colors::OwoColorize;
use crate::color::Srgb;
use crate::prompt::{pad_right, prompt_rule_widths, push_spaces, spaces, spec_rule_width};
use crate::text::{decimal, push_char, push_decimal, texts};

verus! {

/// Header gray.
pub open spec fn header_rgb() -> (u8, u8, u8) {
    (235, 235, 235)
}

/// Label gray.
pub open spec fn label_rgb() -> (u8, u8, u8) {
    (200, 200, 200)
}

/// Dim gray.
pub open spec fn dim_rgb() -> (u8, u8, u8) {
    (130, 130, 130)
}

/// The one accent color, for the check mark and the clipboard sign.
pub open spec fn ok_green_rgb() -> (u8, u8, u8) {
    (126, 196, 145)
}

/// `text` in a truecolor foreground: the color is set before the text and
/// the default foreground restored after it.
pub open spec fn fg(text: Seq<char>, c: (u8, u8, u8)) -> Seq<char> {
    "\x1b[38;2;"@ + decimal(c.0 as nat) + ";"@ + decimal(c.1 as nat) + ";"@ + decimal(c.2 as nat)
        + "m"@ + text + "\x1b[39m"@
}

/// `text` in a truecolor foreground, in bold.
pub open spec fn bold_fg(text: Seq<char>, c: (u8, u8, u8)) -> Seq<char> {
    "\x1b[1m"@ + fg(text, c) + "\x1b[0m"@
}

/// Six spaces on a truecolor background: the swatch of a color.
pub open spec fn swatch(c: Srgb) -> Seq<char> {
    "\x1b[48;2;"@ + decimal(c.r as nat) + ";"@ + decimal(c.g as nat) + ";"@ + decimal(c.b as nat)
        + "m      \x1b[0m"@
}

/// `s` padded on the left with spaces to `w` characters (not cut when longer).
pub open spec fn pad_left(s: Seq<char>, w: nat) -> Seq<char> {
    if s.len() >= w {
        s
    } else {
        spaces((w - s.len()) as nat) + s
    }
}

/// `n` copies of `c`.
pub open spec fn repeat(c: char, n: nat) -> Seq<char> {
    Seq::new(n, |i: int| c)
}

/// Text in a truecolor foreground.
///
/// Trusted: formats `text.color(owo_colors::Rgb(r, g, b))`. In owo-colors
/// 4.4.0 that display writes `\x1b[38;2;{r};{g};{b}m`, the text, then
/// `\x1b[39m` (`Rgb::fmt_ansi_fg` and the `FgDynColorDisplay` impl).
#[verifier::external_body]
fn paint(text: &str, r: u8, g: u8, b: u8) -> (s: String)
    ensures
        s@ == fg(text@, (r, g, b)),
{
    format!("{}", text.color(owo_colors::Rgb(r, g, b)))
}

/// Text in a truecolor foreground, in bold.
///
/// Trusted: formats `text.color(owo_colors::Rgb(r, g, b)).bold()`. In
/// owo-colors 4.4.0 the bold display writes `\x1b[1m`, the colored text as
/// `paint` gives it, then `\x1b[0m` (`BoldDisplay` in `styles.rs`).
#[verifier::external_body]
fn paint_bold(text: &str, r: u8, g: u8, b: u8) -> (s: String)
    ensures
        s@ == bold_fg(text@, (r, g, b)),
{
    format!("{}", text.color(owo_colors::Rgb(r, g, b)).bold())
}

fn push_swatch(s: &mut String, c: Srgb)
    ensures
        final(s)@ == old(s)@ + swatch(c),
{
    s.append("\x1b[48;2;");
    push_decimal(s, c.r as u64);
    s.append(";");
    push_decimal(s, c.g as u64);
    s.append(";");
    push_decimal(s, c.b as u64);
    s.append("m      \x1b[0m");
    assert(s@ =~= old(s)@ + swatch(c));
}

fn push_repeat(s: &mut String, c: char, n: usize)
    ensures
        final(s)@ == old(s)@ + repeat(c, n as nat),
{
    let mut i: usize = 0;
    while i < n
        invariant
            i <= n,
            s@ == old(s)@ + repeat(c, i as nat),
        decreases n - i,
    {
        push_char(s, c);
        i = i + 1;
        assert(s@ =~= old(s)@ + repeat(c, i as nat));
    }
}

fn push_line(lines: &mut Vec<String>, l: String)
    ensures
        texts(final(lines)@) == texts(old(lines)@).push(l@),
{
    let ghost before = texts(lines@);
    let ghost lv = l@;
    lines.push(l);
    assert(texts(lines@) =~= before.push(lv));
}

fn push_blank(lines: &mut Vec<String>)
    ensures
        texts(final(lines)@) == texts(old(lines)@).push(Seq::<char>::empty()),
{
    let l = String::new();
    push_line(lines, l);
}

/// The lines printed for a converted color: a check mark line, then the
/// swatch, the OKLCH CSS value (bold), a clipboard sign when it was copied,
/// and the hex; when copied, a dim note; blank lines between.
pub open spec fn spec_color_lines(css: Seq<char>, c: Srgb, hex: Seq<char>, copied: bool) -> Seq<
    Seq<char>,
> {
    let row = "  "@ + swatch(c) + "  "@ + bold_fg(css, header_rgb()) + (if copied {
        " "@ + fg("📋"@, ok_green_rgb())
    } else {
        seq![]
    }) + "  | "@ + fg(hex, dim_rgb());
    seq![
        seq![],
        "  "@ + bold_fg("✓"@, ok_green_rgb()) + " converted to OKLCH"@,
        seq![],
        row,
    ] + (if copied {
        seq![seq![], "  "@ + fg("copied to clipboard"@, dim_rgb())]
    } else {
        seq![]
    }) + seq![seq![]]
}

/// The lines printed for a converted color, given its OKLCH CSS value, its
/// sRGB color and hex, and whether it was copied to the clipboard.
pub fn color_lines(css: &str, c: Srgb, hex: &str, copied: bool) -> (lines: Vec<String>)
    ensures
        texts(lines@) == spec_color_lines(css@, c, hex@, copied),
{
    let mut lines: Vec<String> = Vec::new();
    push_blank(&mut lines);
    let mut l = String::from_str("  ");
    l.append(paint_bold("✓", 126, 196, 145).as_str());
    l.append(" converted to OKLCH");
    assert(l@ =~= "  "@ + bold_fg("✓"@, ok_green_rgb()) + " converted to OKLCH"@);
    push_line(&mut lines, l);
    push_blank(&mut lines);
    let mut row = String::from_str("  ");
    push_swatch(&mut row, c);
    row.append("  ");
    row.append(paint_bold(css, 235, 235, 235).as_str());
    if copied {
        row.append(" ");
        row.append(paint("📋", 126, 196, 145).as_str());
    }
    row.append("  | ");
    row.append(paint(hex, 130, 130, 130).as_str());
    assert(row@ =~= "  "@ + swatch(c) + "  "@ + bold_fg(css@, header_rgb()) + (if copied {
        " "@ + fg("📋"@, ok_green_rgb())
    } else {
        seq![]
    }) + "  | "@ + fg(hex@, dim_rgb()));
    push_line(&mut lines, row);
    let ghost first = texts(lines@);
    if copied {
        push_blank(&mut lines);
        let mut note = String::from_str("  ");
        note.append(paint("copied to clipboard", 130, 130, 130).as_str());
        assert(note@ =~= "  "@ + fg("copied to clipboard"@, dim_rgb()));
        push_line(&mut lines, note);
    }
    push_blank(&mut lines);
    proof {
        let spec = spec_color_lines(css@, c, hex@, copied);
        assert(first.len() == 4);
        if copied {
            assert(texts(lines@) =~= spec);
        } else {
            assert(texts(lines@) =~= spec);
        }
    }
    lines
}

/// The lines printed above a scale: a blank line, then the swatch of the
/// base color, the dim word `input` and its hex.
pub open spec fn spec_input_header_lines(c: Srgb, hex: Seq<char>) -> Seq<Seq<char>> {
    seq![seq![], "  "@ + swatch(c) + "  "@ + fg("input"@, dim_rgb()) + "  "@ + fg(hex, label_rgb())]
}

/// The lines printed above a scale for its base color.
pub fn input_header_lines(c: Srgb, hex: &str) -> (lines: Vec<String>)
    ensures
        texts(lines@) == spec_input_header_lines(c, hex@),
{
    let mut lines: Vec<String> = Vec::new();
    push_blank(&mut lines);
    let mut l = String::from_str("  ");
    push_swatch(&mut l, c);
    l.append("  ");
    l.append(paint("input", 130, 130, 130).as_str());
    l.append("  ");
    l.append(paint(hex, 200, 200, 200).as_str());
    push_line(&mut lines, l);
    assert(texts(lines@) =~= spec_input_header_lines(c, hex@));
    lines
}

/// One entry of a color scale as shown: its step, its OKLCH CSS value, its
/// hex and its sRGB color.
pub struct RampRow {
    pub step: u16,
    pub css: String,
    pub hex: String,
    pub srgb: Srgb,
}

/// One row of a scale: the swatch, the step right-aligned to 4 characters,
/// the OKLCH value left-aligned to 24, then the dim hex.
pub open spec fn ramp_row_line(r: RampRow) -> Seq<char> {
    "  "@ + swatch(r.srgb) + " "@ + fg(pad_left(decimal(r.step as nat), 4), label_rgb()) + "  "@
        + fg(pad_right(r.css@, 24), label_rgb()) + "  "@ + fg(r.hex@, dim_rgb())
}

/// The lines printed for a scale named `name`: a heading with the name
/// (bold) and the number of steps, one row per entry, then a tip on export.
pub open spec fn spec_ramp_lines(name: Seq<char>, rows: Seq<RampRow>) -> Seq<Seq<char>> {
    seq![
        seq![],
        "  "@ + bold_fg(name, header_rgb()) + " · "@ + fg(decimal(rows.len()), dim_rgb()) + " steps"@,
        seq![],
    ] + Seq::new(rows.len(), |i: int| ramp_row_line(rows[i])) + seq![
        seq![],
        "  Tips: use "@ + bold_fg("chromix export"@, header_rgb()) + " to export as json"@,
        seq![],
    ]
}

fn ramp_row_string(r: &RampRow) -> (l: String)
    ensures
        l@ == ramp_row_line(*r),
{
    let mut step = String::new();
    push_decimal(&mut step, r.step as u64);
    let sl = step.as_str().unicode_len();
    let mut padded_step = String::new();
    if sl < 4 {
        push_spaces(&mut padded_step, 4 - sl);
    }
    padded_step.append(step.as_str());
    assert(padded_step@ =~= pad_left(decimal(r.step as nat), 4));
    let mut padded_css = String::from_str(r.css.as_str());
    let cl = r.css.as_str().unicode_len();
    if cl < 24 {
        push_spaces(&mut padded_css, 24 - cl);
    }
    assert(padded_css@ =~= pad_right(r.css@, 24));
    let mut l = String::from_str("  ");
    push_swatch(&mut l, r.srgb);
    l.append(" ");
    l.append(paint(padded_step.as_str(), 200, 200, 200).as_str());
    l.append("  ");
    l.append(paint(padded_css.as_str(), 200, 200, 200).as_str());
    l.append("  ");
    l.append(paint(r.hex.as_str(), 130, 130, 130).as_str());
    assert(l@ =~= ramp_row_line(*r));
    l
}

/// The lines printed for a color scale named `name`.
pub fn ramp_lines(name: &str, rows: &Vec<RampRow>) -> (lines: Vec<String>)
    ensures
        texts(lines@) == spec_ramp_lines(name@, rows@),
{
    let mut lines: Vec<String> = Vec::new();
    push_blank(&mut lines);
    let mut count = String::new();
    push_decimal(&mut count, rows.len() as u64);
    let mut h = String::from_str("  ");
    h.append(paint_bold(name, 235, 235, 235).as_str());
    h.append(" · ");
    h.append(paint(count.as_str(), 130, 130, 130).as_str());
    h.append(" steps");
    push_line(&mut lines, h);
    push_blank(&mut lines);
    let ghost head = texts(lines@);
    let ghost body = Seq::new(rows@.len(), |i: int| ramp_row_line(rows@[i]));
    let mut i: usize = 0;
    assert(head + body.take(0) =~= head);
    while i < rows.len()
        invariant
            i <= rows.len(),
            body == Seq::new(rows@.len(), |i: int| ramp_row_line(rows@[i])),
            texts(lines@) == head + body.take(i as int),
        decreases rows.len() - i,
    {
        let l = ramp_row_string(&rows[i]);
        push_line(&mut lines, l);
        assert(body.take(i + 1) =~= body.take(i as int).push(body[i as int]));
        assert(texts(lines@) =~= head + body.take(i + 1));
        i = i + 1;
    }
    assert(body.take(rows.len() as int) =~= body);
    push_blank(&mut lines);
    let mut tip = String::from_str("  Tips: use ");
    tip.append(paint_bold("chromix export", 235, 235, 235).as_str());
    tip.append(" to export as json");
    push_line(&mut lines, tip);
    push_blank(&mut lines);
    assert(texts(lines@) =~= spec_ramp_lines(name@, rows@));
    lines
}

/// The lines of a prompt box: a titled top rule, the content lines with no
/// side borders, and a plain bottom rule, all as wide as the rule width,
/// with blank lines around the content.
pub open spec fn spec_prompt_box_lines(title: Seq<char>, lines: Seq<Seq<char>>) -> Seq<Seq<char>> {
    let w = spec_rule_width(title, lines);
    seq![
        seq![],
        "  "@ + fg("──"@, dim_rgb()) + " "@ + fg(title, label_rgb()) + " "@ + fg(
            repeat('─', (w - (title.len() + 4)) as nat),
            dim_rgb(),
        ),
        seq![],
    ] + Seq::new(lines.len(), |i: int| "  "@ + fg(lines[i], label_rgb())) + seq![
        seq![],
        "  "@ + fg(repeat('─', w), dim_rgb()),
        seq![],
    ]
}

/// The lines of a selection-clean prompt box around `content`.
pub fn prompt_box_lines(title: &str, content: &Vec<String>) -> (lines: Vec<String>)
    requires
        title@.len() + 4 <= usize::MAX,
    ensures
        texts(lines@) == spec_prompt_box_lines(title@, texts(content@)),
{
    let (w, fill) = prompt_rule_widths(title, content);
    let mut lines: Vec<String> = Vec::new();
    push_blank(&mut lines);
    let mut top = String::from_str("  ");
    top.append(paint("──", 130, 130, 130).as_str());
    top.append(" ");
    top.append(paint(title, 200, 200, 200).as_str());
    top.append(" ");
    let mut fill_rule = String::new();
    push_repeat(&mut fill_rule, '─', fill);
    top.append(paint(fill_rule.as_str(), 130, 130, 130).as_str());
    push_line(&mut lines, top);
    push_blank(&mut lines);
    let ghost cs = texts(content@);
    let ghost head = texts(lines@);
    let ghost body = Seq::new(cs.len(), |i: int| "  "@ + fg(cs[i], label_rgb()));
    let mut i: usize = 0;
    assert(head + body.take(0) =~= head);
    while i < content.len()
        invariant
            i <= content.len(),
            cs == texts(content@),
            body == Seq::new(cs.len(), |i: int| "  "@ + fg(cs[i], label_rgb())),
            texts(lines@) == head + body.take(i as int),
        decreases content.len() - i,
    {
        let mut l = String::from_str("  ");
        l.append(paint(content[i].as_str(), 200, 200, 200).as_str());
        assert(l@ =~= body[i as int]);
        push_line(&mut lines, l);
        assert(body.take(i + 1) =~= body.take(i as int).push(body[i as int]));
        assert(texts(lines@) =~= head + body.take(i + 1));
        i = i + 1;
    }
    assert(body.take(content.len() as int) =~= body);
    push_blank(&mut lines);
    let mut bottom_rule = String::new();
    push_repeat(&mut bottom_rule, '─', w);
    let mut bottom = String::from_str("  ");
    bottom.append(paint(bottom_rule.as_str(), 130, 130, 130).as_str());
    push_line(&mut lines, bottom);
    push_blank(&mut lines);
    assert(texts(lines@) =~= spec_prompt_box_lines(title@, texts(content@)));
    lines
}

/// Labels, headers and values are grays, the header lightest and the dim
/// gray darkest; the one accent is the soft green (126, 196, 145).
pub proof fn lemma_palette()
    ensures
        header_rgb() == (235u8, 235u8, 235u8),
        label_rgb() == (200u8, 200u8, 200u8),
        dim_rgb() == (130u8, 130u8, 130u8),
        ok_green_rgb() == (126u8, 196u8, 145u8),
        header_rgb().0 > label_rgb().0 > dim_rgb().0,
{
}

/// A scale shows a heading, one row per entry, then the tip: its line count
/// is the number of entries plus six, and every row starts with the swatch of
/// its entry's color.
pub proof fn lemma_ramp_lines_shape(name: Seq<char>, rows: Seq<RampRow>)
    ensures
        spec_ramp_lines(name, rows).len() == rows.len() + 6,
        forall|i: int|
            0 <= i < rows.len() ==> (#[trigger] spec_ramp_lines(name, rows)[3 + i]).take(
                (2 + swatch(rows[i].srgb).len()) as int,
            ) == "  "@ + swatch(rows[i].srgb),
{
    let l = spec_ramp_lines(name, rows);
    assert forall|i: int| 0 <= i < rows.len() implies (#[trigger] l[3 + i]).take(
        (2 + swatch(rows[i].srgb).len()) as int,
    ) == "  "@ + swatch(rows[i].srgb) by {
        reveal_strlit("  ");
        assert(l[3 + i] == ramp_row_line(rows[i]));
        assert(ramp_row_line(rows[i]).take((2 + swatch(rows[i].srgb).len()) as int) =~= "  "@ + swatch(
            rows[i].srgb,
        ));
    }
}

} // verus!
