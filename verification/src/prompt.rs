use vstd::prelude::*;
use crate::gradient::{kind_label, spec_tailwind_stops, tailwind_stops, variant_label, GradientKind};
use crate::text::{decimal, push_char, push_decimal, spec_wrap, texts, wrap};

verus! {

/// The width, in characters, to which the prose of a prompt is wrapped.
pub const PROMPT_WRAP_WIDTH: usize = 56;

/// The narrowest rule drawn around a prompt.
pub const MIN_RULE_WIDTH: usize = 44;

/// The length of the longest text, or 0 for none.
pub open spec fn max_len(ls: Seq<Seq<char>>) -> nat
    decreases ls.len(),
{
    if ls.len() == 0 {
        0
    } else {
        let m = max_len(ls.drop_last());
        if ls.last().len() > m {
            ls.last().len()
        } else {
            m
        }
    }
}

/// No text is longer than `max_len`, which is the length of one of them
/// (or 0 when there is none).
pub proof fn lemma_max_len(ls: Seq<Seq<char>>)
    ensures
        forall|i: int| 0 <= i < ls.len() ==> #[trigger] ls[i].len() <= max_len(ls),
        ls.len() == 0 ==> max_len(ls) == 0,
        ls.len() > 0 ==> exists|i: int| 0 <= i < ls.len() && max_len(ls) == #[trigger] ls[i].len(),
    decreases ls.len(),
{
    if ls.len() > 0 {
        let pre = ls.drop_last();
        lemma_max_len(pre);
        assert forall|i: int| 0 <= i < ls.len() implies #[trigger] ls[i].len() <= max_len(ls) by {
            if i < pre.len() {
                assert(ls[i] == pre[i]);
            }
        }
        if ls.last().len() > max_len(pre) || pre.len() == 0 {
            assert(max_len(ls) == ls[ls.len() - 1].len());
        } else {
            let i = choose|i: int| 0 <= i < pre.len() && max_len(pre) == #[trigger] pre[i].len();
            assert(ls[i] == pre[i]);
        }
    }
}

/// The width of the rules around a prompt box: the widest of its lines, of
/// its title plus four, and of the minimum width.
pub open spec fn spec_rule_width(title: Seq<char>, lines: Seq<Seq<char>>) -> nat {
    let m = max_len(lines);
    let t = title.len() + 4;
    let w = if m > t { m } else { t };
    if w > MIN_RULE_WIDTH { w } else { MIN_RULE_WIDTH as nat }
}

/// The width of the rules of a prompt box with the given title and lines,
/// and how many rule characters follow the title on the top rule.
pub fn prompt_rule_widths(title: &str, lines: &Vec<String>) -> (r: (usize, usize))
    requires
        title@.len() + 4 <= usize::MAX,
    ensures
        r.0 == spec_rule_width(title@, texts(lines@)),
        r.1 + title@.len() + 4 == r.0,
{
    let mut m: usize = 0;
    let mut i: usize = 0;
    assert(texts(lines@).take(0) =~= Seq::<Seq<char>>::empty());
    while i < lines.len()
        invariant
            i <= lines.len(),
            m == max_len(texts(lines@).take(i as int)),
        decreases lines.len() - i,
    {
        let l = lines[i].as_str().unicode_len();
        assert(texts(lines@).take(i + 1).drop_last() =~= texts(lines@).take(i as int));
        if l > m {
            m = l;
        }
        i = i + 1;
    }
    assert(texts(lines@).take(lines.len() as int) =~= texts(lines@));
    let t = title.unicode_len() + 4;
    let w = if m > t { m } else { t };
    let w = if w > MIN_RULE_WIDTH { w } else { MIN_RULE_WIDTH };
    (w, w - t)
}

/// The rule of a prompt box is at least as wide as each of its lines, as its
/// title plus four, and as the minimum width.
pub proof fn lemma_rule_covers(title: Seq<char>, lines: Seq<Seq<char>>)
    ensures
        forall|i: int| 0 <= i < lines.len() ==> #[trigger] lines[i].len() <= spec_rule_width(title, lines),
        title.len() + 4 <= spec_rule_width(title, lines),
        MIN_RULE_WIDTH <= spec_rule_width(title, lines),
{
    lemma_max_len(lines);
}

/// `n` spaces.
pub open spec fn spaces(n: nat) -> Seq<char> {
    Seq::new(n, |i: int| ' ')
}

/// `s` padded on the right with spaces to `w` characters (not cut when longer).
pub open spec fn pad_right(s: Seq<char>, w: nat) -> Seq<char> {
    if s.len() >= w {
        s
    } else {
        s + spaces((w - s.len()) as nat)
    }
}

/// The introduction of the agent prompt for a color scale named `name`.
pub open spec fn agent_intro(name: Seq<char>) -> Seq<char> {
    "Add this OKLCH color scale to my Tailwind theme as \""@ + name
        + "\" color tokens (v4 @theme; for v3, nest these under theme.extend.colors."@ + name
        + "). Keep the OKLCH values as the source of truth:"@
}

/// The theme token of one step: `--color-<name>-<step>:`.
pub open spec fn token_key(name: Seq<char>, step: u16) -> Seq<char> {
    "--color-"@ + name + "-"@ + decimal(step as nat) + ":"@
}

/// The token keys of a scale's entries.
pub open spec fn token_keys(name: Seq<char>, entries: Seq<(u16, String)>) -> Seq<Seq<char>> {
    entries.map_values(|e: (u16, String)| token_key(name, e.0))
}

/// One token line: the key padded to the key column, then the value.
pub open spec fn token_line(name: Seq<char>, step: u16, css: Seq<char>, w: nat) -> Seq<char> {
    "  "@ + pad_right(token_key(name, step), w) + " "@ + css + ";"@
}

/// The lines of the agent prompt for a scale named `name` whose entries are
/// (step, OKLCH CSS value): the wrapped introduction, a blank line, and a
/// Tailwind v4 `@theme` block with one aligned token per entry.
pub open spec fn spec_agent_prompt_lines(name: Seq<char>, entries: Seq<(u16, String)>) -> Seq<
    Seq<char>,
> {
    let w = max_len(token_keys(name, entries));
    spec_wrap(agent_intro(name), PROMPT_WRAP_WIDTH as nat) + seq![""@, "@theme {"@] + Seq::new(
        entries.len(),
        |i: int| token_line(name, entries[i].0, entries[i].1@, w),
    ) + seq!["}"@]
}

pub(crate) fn push_spaces(s: &mut String, n: usize)
    ensures
        final(s)@ == old(s)@ + spaces(n as nat),
{
    let mut i: usize = 0;
    while i < n
        invariant
            i <= n,
            s@ == old(s)@ + spaces(i as nat),
        decreases n - i,
    {
        push_char(s, ' ');
        i = i + 1;
        assert(s@ =~= old(s)@ + spaces(i as nat));
    }
}

fn token_key_string(name: &str, step: u16) -> (k: String)
    ensures
        k@ == token_key(name@, step),
{
    let mut k = String::from_str("--color-");
    k.append(name);
    k.append("-");
    push_decimal(&mut k, step as u64);
    k.append(":");
    assert(k@ =~= token_key(name@, step));
    k
}

fn push_literal_line(lines: &mut Vec<String>, l: &str)
    ensures
        texts(final(lines)@) == texts(old(lines)@).push(l@),
{
    let ghost before = texts(lines@);
    lines.push(String::from_str(l));
    assert(texts(lines@) =~= before.push(l@));
}

/// The lines of the ready-to-paste prompt for AI coding agents that follows
/// a color scale named `name`; each entry is a step and its OKLCH CSS value.
pub fn agent_prompt_lines(name: &str, entries: &Vec<(u16, String)>) -> (lines: Vec<String>)
    ensures
        texts(lines@) == spec_agent_prompt_lines(name@, entries@),
{
    let n = entries.len();
    let mut keys: Vec<String> = Vec::new();
    let mut w: usize = 0;
    let mut i: usize = 0;
    let ghost all_keys = token_keys(name@, entries@);
    assert(all_keys.take(0) =~= Seq::<Seq<char>>::empty());
    while i < n
        invariant
            i <= n,
            n == entries@.len(),
            all_keys == token_keys(name@, entries@),
            texts(keys@) == all_keys.take(i as int),
            w == max_len(all_keys.take(i as int)),
        decreases n - i,
    {
        let k = token_key_string(name, entries[i].0);
        let kl = k.as_str().unicode_len();
        let ghost before = texts(keys@);
        keys.push(k);
        assert(all_keys.take(i + 1).drop_last() =~= all_keys.take(i as int));
        assert(all_keys.take(i + 1) =~= before.push(all_keys[i as int]));
        assert(texts(keys@) =~= before.push(all_keys[i as int]));
        if kl > w {
            w = kl;
        }
        i = i + 1;
    }
    assert(all_keys.take(n as int) =~= all_keys);
    let mut intro = String::from_str("Add this OKLCH color scale to my Tailwind theme as \"");
    intro.append(name);
    intro.append("\" color tokens (v4 @theme; for v3, nest these under theme.extend.colors.");
    intro.append(name);
    intro.append("). Keep the OKLCH values as the source of truth:");
    assert(intro@ =~= agent_intro(name@));
    let mut lines = wrap(intro.as_str(), PROMPT_WRAP_WIDTH);
    push_literal_line(&mut lines, "");
    push_literal_line(&mut lines, "@theme {");
    let ghost head = texts(lines@);
    let ghost body = Seq::new(
        entries@.len(),
        |j: int| token_line(name@, entries@[j].0, entries@[j].1@, w as nat),
    );
    let mut j: usize = 0;
    assert(body.take(0) =~= Seq::<Seq<char>>::empty());
    assert(head + body.take(0) =~= head);
    while j < n
        invariant
            j <= n,
            n == entries@.len(),
            n == keys@.len(),
            texts(keys@) == token_keys(name@, entries@),
            w == max_len(token_keys(name@, entries@)),
            body == Seq::new(
                entries@.len(),
                |j: int| token_line(name@, entries@[j].0, entries@[j].1@, w as nat),
            ),
            texts(lines@) == head + body.take(j as int),
        decreases n - j,
    {
        proof {
            lemma_max_len(token_keys(name@, entries@));
            assert(token_keys(name@, entries@)[j as int] == keys@[j as int]@);
        }
        let key = keys[j].as_str();
        let kl = key.unicode_len();
        let mut line = String::from_str("  ");
        line.append(key);
        push_spaces(&mut line, w - kl);
        line.append(" ");
        line.append(entries[j].1.as_str());
        line.append(";");
        assert(line@ =~= body[j as int]) by {
            let kk = token_key(name@, entries@[j as int].0);
            assert(kk == key@);
            if kk.len() >= w {
                assert(spaces((w - kl) as nat) =~= Seq::<char>::empty());
            }
        }
        let ghost before = texts(lines@);
        lines.push(line);
        assert(texts(lines@) =~= before.push(body[j as int]));
        assert(body.take(j + 1) =~= body.take(j as int).push(body[j as int]));
        assert(texts(lines@) =~= head + body.take(j + 1));
        j = j + 1;
    }
    assert(body.take(n as int) =~= body);
    push_literal_line(&mut lines, "}");
    assert(texts(lines@) =~= spec_agent_prompt_lines(name@, entries@));
    lines
}

/// In the agent prompt, every token key is padded to the same column, the
/// width of the longest key.
pub proof fn lemma_token_keys_aligned(name: Seq<char>, entries: Seq<(u16, String)>)
    ensures
        forall|i: int|
            0 <= i < entries.len() ==> #[trigger] pad_right(
                token_key(name, entries[i].0),
                max_len(token_keys(name, entries)),
            ).len() == max_len(token_keys(name, entries)),
{
    let keys = token_keys(name, entries);
    lemma_max_len(keys);
    assert forall|i: int| 0 <= i < entries.len() implies #[trigger] pad_right(
        token_key(name, entries[i].0),
        max_len(keys),
    ).len() == max_len(keys) by {
        assert(keys[i] == token_key(name, entries[i].0));
    }
}

/// The introduction of the gradient prompt.
pub open spec fn gradient_intro() -> Seq<char> {
    "Use these OKLCH gradients as Tailwind background gradients (v4 bg-linear-to-r; v3 bg-gradient-to-r). Each className covers light by default and dark under the dark: variant — drop one onto an element:"@
}

/// A gradient variant with the OKLCH CSS values of the stops of its light
/// and of its dark gradient.
pub type GradientPair = (GradientKind, Vec<String>, Vec<String>);

/// The two prompt lines of one variant: its name, then one className with
/// the light gradient by default and the dark one under `dark:`.
pub open spec fn pair_lines(p: GradientPair) -> Seq<Seq<char>> {
    seq![
        kind_label(p.0),
        "  bg-linear-to-r "@ + spec_tailwind_stops(""@, texts(p.1@)) + " "@ + spec_tailwind_stops(
            "dark:"@,
            texts(p.2@),
        ),
    ]
}

/// The prompt lines of each variant, one variant after the other.
pub open spec fn all_pair_lines(ps: Seq<GradientPair>) -> Seq<Seq<char>>
    decreases ps.len(),
{
    if ps.len() == 0 {
        seq![]
    } else {
        all_pair_lines(ps.drop_last()) + pair_lines(ps.last())
    }
}

/// The lines of the gradient prompt: the wrapped introduction, a blank line,
/// then two lines per variant.
pub open spec fn spec_gradient_prompt_lines(ps: Seq<GradientPair>) -> Seq<Seq<char>> {
    spec_wrap(gradient_intro(), PROMPT_WRAP_WIDTH as nat) + seq![""@] + all_pair_lines(ps)
}

/// The lines of the ready-to-paste prompt for AI coding agents that follows
/// the gradients; each variant comes with its light and dark stops.
pub fn gradient_prompt_lines(pairs: &Vec<GradientPair>) -> (lines: Vec<String>)
    requires
        forall|i: int| 0 <= i < pairs.len() ==> (#[trigger] pairs@[i]).1.len() > 0 && pairs@[i].2.len() > 0,
    ensures
        texts(lines@) == spec_gradient_prompt_lines(pairs@),
{
    let intro = "Use these OKLCH gradients as Tailwind background gradients (v4 bg-linear-to-r; v3 bg-gradient-to-r). Each className covers light by default and dark under the dark: variant — drop one onto an element:";
    let mut lines = wrap(intro, PROMPT_WRAP_WIDTH);
    push_literal_line(&mut lines, "");
    let ghost head = texts(lines@);
    let mut i: usize = 0;
    assert(pairs@.take(0) =~= Seq::<GradientPair>::empty());
    assert(head + all_pair_lines(pairs@.take(0)) =~= head);
    while i < pairs.len()
        invariant
            i <= pairs.len(),
            forall|i: int| 0 <= i < pairs.len() ==> (#[trigger] pairs@[i]).1.len() > 0 && pairs@[i].2.len() > 0,
            texts(lines@) == head + all_pair_lines(pairs@.take(i as int)),
        decreases pairs.len() - i,
    {
        let p = &pairs[i];
        assert(pairs@[i as int] == *p);
        let ghost before = texts(lines@);
        lines.push(String::from_str(variant_label(p.0)));
        let mut l = String::from_str("  bg-linear-to-r ");
        let light = tailwind_stops("", &p.1);
        l.append(light.as_str());
        l.append(" ");
        let dark = tailwind_stops("dark:", &p.2);
        l.append(dark.as_str());
        lines.push(l);
        assert(pairs@.take(i + 1).drop_last() =~= pairs@.take(i as int));
        assert(texts(lines@) =~= before + pair_lines(pairs@[i as int]));
        i = i + 1;
    }
    assert(pairs@.take(pairs.len() as int) =~= pairs@);
    lines
}

} // verus!
