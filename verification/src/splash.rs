use vstd::prelude::*;
use crate::color::{is_hex_value, spec_is_hex_value};
use crate::text::{chars_of, push_char};

verus! {

/// The terminal background the splash screen is drawn for.
#[derive(Clone, Copy, Debug, PartialEq, Eq, Structural)]
pub enum Theme {
    Dark,
    Light,
}

/// Soft purple, for subcommands.
pub const SYN_SUB: &'static str = "\x1b[38;2;198;160;246m";

/// Soft green, for hex values.
pub const SYN_STR: &'static str = "\x1b[38;2;126;196;145m";

/// Soft blue, for `--flags`.
pub const SYN_FLAG: &'static str = "\x1b[38;2;138;170;240m";

/// Resets all attributes.
pub const RESET: &'static str = "\x1b[0m";

/// Bold.
pub const BOLD: &'static str = "\x1b[1m";

pub open spec fn spec_wordmark_colors(theme: Theme) -> Seq<(u8, u8, u8)> {
    match theme {
        Theme::Dark => seq![(245, 245, 245), (210, 210, 210), (175, 175, 175), (140, 140, 140), (105, 105, 105)],
        Theme::Light => seq![(40, 40, 40), (70, 70, 70), (100, 100, 100), (130, 130, 130), (160, 160, 160)],
    }
}

/// The grayscale sweep of the five wordmark rows, from the first row down:
/// light to dark on a dark terminal, dark to light on a light one.
pub fn wordmark_colors(theme: Theme) -> (c: [(u8, u8, u8); 5])
    ensures
        c@ == spec_wordmark_colors(theme),
{
    let c = match theme {
        Theme::Dark => [(245, 245, 245), (210, 210, 210), (175, 175, 175), (140, 140, 140), (105, 105, 105)],
        Theme::Light => [(40, 40, 40), (70, 70, 70), (100, 100, 100), (130, 130, 130), (160, 160, 160)],
    };
    assert(c@ =~= spec_wordmark_colors(theme));
    c
}

/// The escape sequences of the body grays: subtle, dim, rule, command and
/// digit colors.
pub open spec fn spec_body_colors(theme: Theme) -> (Seq<char>, Seq<char>, Seq<char>, Seq<char>, Seq<char>) {
    match theme {
        Theme::Dark => (
            "\x1b[38;2;170;170;170m"@,
            "\x1b[38;2;120;120;120m"@,
            "\x1b[38;2;80;80;80m"@,
            "\x1b[38;2;235;235;235m"@,
            "\x1b[38;2;120;120;120m"@,
        ),
        Theme::Light => (
            "\x1b[38;2;80;80;80m"@,
            "\x1b[38;2;120;120;120m"@,
            "\x1b[38;2;175;175;175m"@,
            "\x1b[38;2;30;30;30m"@,
            "\x1b[38;2;120;120;120m"@,
        ),
    }
}

/// The body grays of the splash screen for a theme, as escape sequences:
/// (subtle, dim, rule, command, digit).
pub fn body_colors(theme: Theme) -> (c: (String, String, String, String, String))
    ensures
        (c.0@, c.1@, c.2@, c.3@, c.4@) == spec_body_colors(theme),
{
    match theme {
        Theme::Dark => (
            String::from_str("\x1b[38;2;170;170;170m"),
            String::from_str("\x1b[38;2;120;120;120m"),
            String::from_str("\x1b[38;2;80;80;80m"),
            String::from_str("\x1b[38;2;235;235;235m"),
            String::from_str("\x1b[38;2;120;120;120m"),
        ),
        Theme::Light => (
            String::from_str("\x1b[38;2;80;80;80m"),
            String::from_str("\x1b[38;2;120;120;120m"),
            String::from_str("\x1b[38;2;175;175;175m"),
            String::from_str("\x1b[38;2;30;30;30m"),
            String::from_str("\x1b[38;2;120;120;120m"),
        ),
    }
}

/// How a word of a usage example is highlighted.
#[derive(Clone, Copy, Debug, PartialEq, Eq, Structural)]
pub enum WordClass {
    /// The program name.
    Command,
    /// `convert`, `scale` or `export`.
    Subcommand,
    /// A word starting with `--`.
    Flag,
    /// A hex color value.
    HexValue,
    /// Anything else.
    Plain,
}

pub open spec fn spec_classify(w: Seq<char>) -> WordClass {
    if w == "chromix"@ {
        WordClass::Command
    } else if w == "convert"@ || w == "scale"@ || w == "export"@ {
        WordClass::Subcommand
    } else if w.len() >= 2 && w[0] == '-' && w[1] == '-' {
        WordClass::Flag
    } else if spec_is_hex_value(w) {
        WordClass::HexValue
    } else {
        WordClass::Plain
    }
}

/// The class of a word of a usage example, checked in this order: program
/// name, subcommand, flag, hex value.
pub fn classify_word(word: &str) -> (c: WordClass)
    ensures
        c == spec_classify(word@),
{
    let w = String::from_str(word);
    if w == String::from_str("chromix") {
        WordClass::Command
    } else if w == String::from_str("convert") || w == String::from_str("scale") || w
        == String::from_str("export") {
        WordClass::Subcommand
    } else if starts_with_two_dashes(word) {
        WordClass::Flag
    } else if is_hex_value(word) {
        WordClass::HexValue
    } else {
        WordClass::Plain
    }
}

fn starts_with_two_dashes(word: &str) -> (b: bool)
    ensures
        b == (word@.len() >= 2 && word@[0] == '-' && word@[1] == '-'),
{
    let v = chars_of(word);
    v.len() >= 2 && v[0] == '-' && v[1] == '-'
}

/// The escape sequence that starts a word of a class.
pub open spec fn class_style(c: WordClass, syn_cmd: Seq<char>, dim: Seq<char>) -> Seq<char> {
    match c {
        WordClass::Command => syn_cmd + BOLD@,
        WordClass::Subcommand => SYN_SUB@,
        WordClass::Flag => SYN_FLAG@,
        WordClass::HexValue => SYN_STR@,
        WordClass::Plain => dim,
    }
}

/// A highlighted word: its style, the word, then a reset.
pub open spec fn styled(w: Seq<char>, syn_cmd: Seq<char>, dim: Seq<char>) -> Seq<char> {
    class_style(spec_classify(w), syn_cmd, dim) + w + RESET@
}

/// The pieces of `s` between its spaces, in order (as `str::split(' ')`
/// gives them): two spaces in a row leave an empty piece between them, and
/// there is always at least one piece.
pub open spec fn space_pieces(s: Seq<char>) -> Seq<Seq<char>>
    decreases s.len(),
{
    if s.len() == 0 {
        seq![seq![]]
    } else {
        let p = space_pieces(s.drop_last());
        if s.last() == ' ' {
            p.push(seq![])
        } else {
            p.update(p.len() - 1, p.last().push(s.last()))
        }
    }
}

proof fn lemma_space_pieces_nonempty(s: Seq<char>)
    ensures
        space_pieces(s).len() > 0,
    decreases s.len(),
{
    if s.len() > 0 {
        lemma_space_pieces_nonempty(s.drop_last());
    }
}

/// A piece highlighted: nothing for an empty piece, else the styled word.
pub open spec fn render_piece(w: Seq<char>, syn_cmd: Seq<char>, dim: Seq<char>) -> Seq<char> {
    if w.len() == 0 {
        seq![]
    } else {
        styled(w, syn_cmd, dim)
    }
}

/// Pieces highlighted, each followed by the space that ended it.
pub open spec fn render_pieces(ps: Seq<Seq<char>>, syn_cmd: Seq<char>, dim: Seq<char>) -> Seq<char>
    decreases ps.len(),
{
    if ps.len() == 0 {
        seq![]
    } else {
        render_pieces(ps.drop_last(), syn_cmd, dim) + render_piece(ps.last(), syn_cmd, dim) + " "@
    }
}

/// The code of an example highlighted word by word, every space kept in
/// place (as `str::split_inclusive(' ')` splits it).
pub open spec fn highlight_code(code: Seq<char>, syn_cmd: Seq<char>, dim: Seq<char>) -> Seq<char> {
    let ps = space_pieces(code);
    render_pieces(ps.drop_last(), syn_cmd, dim) + render_piece(ps.last(), syn_cmd, dim)
}

/// The part of an example before its first `#`.
pub open spec fn code_part(s: Seq<char>) -> Seq<char>
    decreases s.len(),
{
    if s.len() == 0 || s[0] == '#' {
        seq![]
    } else {
        seq![s[0]] + code_part(s.drop_first())
    }
}

/// A usage example highlighted: before the first `#`, each word styled by
/// its class with every space kept, then the comment from the `#` on in the
/// dim color.
pub open spec fn spec_highlight(ex: Seq<char>, syn_cmd: Seq<char>, dim: Seq<char>) -> Seq<char> {
    let code = code_part(ex);
    let comment = ex.skip(code.len() as int);
    highlight_code(code, syn_cmd, dim) + if comment.len() > 0 {
        dim + comment + RESET@
    } else {
        seq![]
    }
}

/// Appends the style that starts a word of class `c`.
fn push_class_style(out: &mut String, c: WordClass, syn_cmd: &str, dim: &str)
    ensures
        final(out)@ == old(out)@ + class_style(c, syn_cmd@, dim@),
{
    match c {
        WordClass::Command => {
            out.append(syn_cmd);
            out.append(BOLD);
        },
        WordClass::Subcommand => out.append(SYN_SUB),
        WordClass::Flag => out.append(SYN_FLAG),
        WordClass::HexValue => out.append(SYN_STR),
        WordClass::Plain => out.append(dim),
    }
    assert(out@ =~= old(out)@ + class_style(c, syn_cmd@, dim@));
}

/// Highlights one usage example of the splash screen; `syn_cmd` and `dim`
/// are the theme's command and dim colors.
pub fn highlight_example(ex: &str, syn_cmd: &str, dim: &str) -> (line: String)
    ensures
        line@ == spec_highlight(ex@, syn_cmd@, dim@),
{
    let v = chars_of(ex);
    let n = v.len();
    let mut i: usize = 0;
    let mut code = String::new();
    assert(v@.skip(0) =~= v@);
    while i < n && v[i] != '#'
        invariant
            i <= n,
            n == v@.len(),
            v@ == ex@,
            code@ == v@.take(i as int),
            code_part(v@) == v@.take(i as int) + code_part(v@.skip(i as int)),
        decreases n - i,
    {
        push_char(&mut code, v[i]);
        assert(v@.skip(i as int).drop_first() =~= v@.skip(i + 1));
        assert(v@.take(i + 1) =~= v@.take(i as int) + seq![v@[i as int]]);
        assert(code@ =~= v@.take(i + 1));
        i = i + 1;
    }
    assert(code_part(v@.skip(i as int)) =~= Seq::<char>::empty());
    assert(code_part(v@) =~= v@.take(i as int));
    let mut line = String::new();
    let mut cur = String::new();
    let mut k: usize = 0;
    assert(v@.take(0) =~= Seq::<char>::empty());
    while k < i
        invariant
            k <= i <= n,
            n == v@.len(),
            code@ == v@.take(i as int),
            space_pieces(v@.take(k as int)).len() > 0,
            line@ == render_pieces(space_pieces(v@.take(k as int)).drop_last(), syn_cmd@, dim@),
            cur@ == space_pieces(v@.take(k as int)).last(),
        decreases i - k,
    {
        let c = v[k];
        let ghost ps = space_pieces(v@.take(k as int));
        let ghost t = v@.take(k + 1);
        assert(t.drop_last() =~= v@.take(k as int));
        assert(t.last() == c);
        if c == ' ' {
            if cur.as_str().unicode_len() > 0 {
                let cls = classify_word(cur.as_str());
                push_class_style(&mut line, cls, syn_cmd, dim);
                line.append(cur.as_str());
                line.append(RESET);
            }
            line.append(" ");
            cur = String::new();
            assert(space_pieces(t) == ps.push(seq![]));
            assert(ps.push(seq![]).drop_last() =~= ps);
            assert(line@ =~= render_pieces(ps, syn_cmd@, dim@));
        } else {
            push_char(&mut cur, c);
            let ghost q = ps.update(ps.len() - 1, ps.last().push(c));
            assert(space_pieces(t) == q);
            assert(q.drop_last() =~= ps.drop_last());
        }
        proof {
            lemma_space_pieces_nonempty(t);
        }
        k = k + 1;
    }
    if cur.as_str().unicode_len() > 0 {
        let cls = classify_word(cur.as_str());
        push_class_style(&mut line, cls, syn_cmd, dim);
        line.append(cur.as_str());
        line.append(RESET);
    }
    assert(line@ =~= highlight_code(code@, syn_cmd@, dim@));
    if i < n {
        line.append(dim);
        let mut j = i;
        let ghost base = line@;
        while j < n
            invariant
                i <= j <= n,
                n == v@.len(),
                line@ == base + v@.subrange(i as int, j as int),
            decreases n - j,
        {
            push_char(&mut line, v[j]);
            assert(v@.subrange(i as int, j + 1) =~= v@.subrange(i as int, j as int).push(v@[j as int]));
            j = j + 1;
        }
        line.append(RESET);
        assert(v@.skip(i as int) =~= v@.subrange(i as int, n as int));
    } else {
        assert(v@.skip(i as int).len() == 0);
        assert(line@ =~= line@ + Seq::<char>::empty());
    }
    line
}

/// The wordmark rows are grays: from 245 down to 105 by steps of 35 on a
/// dark terminal, from 40 up to 160 by steps of 30 on a light one.
pub proof fn lemma_wordmark_sweep()
    ensures
        forall|t: Theme, i: int|
            0 <= i < 5 ==> {
                let c = #[trigger] spec_wordmark_colors(t)[i];
                &&& c.0 == c.1 && c.1 == c.2
                &&& t == Theme::Dark ==> c.0 == 245 - 35 * i
                &&& t == Theme::Light ==> c.0 == 40 + 30 * i
            },
        forall|t: Theme| #[trigger] spec_wordmark_colors(t).len() == 5,
{
}

/// Only `chromix` is the command, only `convert`, `scale` and `export` are
/// subcommands, and a flag is any other word that starts with two dashes.
pub proof fn lemma_word_classes(w: Seq<char>)
    ensures
        spec_classify(w) == WordClass::Command <==> w == seq!['c', 'h', 'r', 'o', 'm', 'i', 'x'],
        spec_classify(w) == WordClass::Subcommand <==> (w == seq!['c', 'o', 'n', 'v', 'e', 'r', 't']
            || w == seq!['s', 'c', 'a', 'l', 'e'] || w == seq!['e', 'x', 'p', 'o', 'r', 't']),
        (spec_classify(w) == WordClass::Flag) ==> w.len() >= 2 && w[0] == '-' && w[1] == '-',
{
    reveal_strlit("chromix");
    reveal_strlit("convert");
    reveal_strlit("scale");
    reveal_strlit("export");
    assert("chromix"@ =~= seq!['c', 'h', 'r', 'o', 'm', 'i', 'x']);
    assert("convert"@ =~= seq!['c', 'o', 'n', 'v', 'e', 'r', 't']);
    assert("scale"@ =~= seq!['s', 'c', 'a', 'l', 'e']);
    assert("export"@ =~= seq!['e', 'x', 'p', 'o', 'r', 't']);
}

} // verus!
