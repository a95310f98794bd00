use vstd::prelude::*;

verus! {

/// Appends one character to a string.
///
/// Trusted: wraps `String::push`, which std documents as appending the
/// character to the end of the string; nothing more is claimed.
#[verifier::external_body]
pub(crate) fn push_char(s: &mut String, c: char)
    ensures
        final(s)@ == old(s)@.push(c),
{
    s.push(c)
}

/// The characters of a string slice, in order.
pub fn chars_of(s: &str) -> (v: Vec<char>)
    ensures
        v@ == s@,
{
    let mut v: Vec<char> = Vec::new();
    for c in it: s.chars()
        invariant
            v@ == it.seq().take(it.index() as int),
    {
        v.push(c);
    }
    v
}

/// The character of a decimal digit.
pub open spec fn digit_char(d: nat) -> char {
    ('0' as nat + d) as char
}

/// The decimal writing of a natural number, without leading zeros.
pub open spec fn decimal(n: nat) -> Seq<char>
    decreases n,
{
    if n < 10 {
        seq![digit_char(n)]
    } else {
        decimal(n / 10).push(digit_char(n % 10))
    }
}

/// Appends the decimal writing of `n`.
pub fn push_decimal(s: &mut String, n: u64)
    ensures
        final(s)@ == old(s)@ + decimal(n as nat),
    decreases n,
{
    if n >= 10 {
        push_decimal(s, n / 10);
    }
    let d: u8 = (n % 10) as u8;
    let c = (48u8 + d) as char;
    push_char(s, c);
    assert(s@ =~= old(s)@ + decimal(n as nat));
}

/// Unicode white space, as `char::is_whitespace` decides it.
pub open spec fn is_whitespace(c: char) -> bool {
    let u = c as int;
    ||| 9 <= u <= 13
    ||| u == 32
    ||| u == 0x85
    ||| u == 0xA0
    ||| u == 0x1680
    ||| 0x2000 <= u <= 0x200A
    ||| u == 0x2028
    ||| u == 0x2029
    ||| u == 0x202F
    ||| u == 0x205F
    ||| u == 0x3000
}

/// Whether `c` is white space.
pub fn is_space(c: char) -> (b: bool)
    ensures
        b == is_whitespace(c),
{
    let u = c as u32;
    (9 <= u && u <= 13) || u == 32 || u == 0x85 || u == 0xA0 || u == 0x1680 || (0x2000 <= u
        && u <= 0x200A) || u == 0x2028 || u == 0x2029 || u == 0x202F || u == 0x205F || u == 0x3000
}

/// The words of `s`: its maximal runs of characters that are not white
/// space, in order.
pub open spec fn words(s: Seq<char>) -> Seq<Seq<char>>
    decreases s.len(),
{
    if s.len() == 0 {
        seq![]
    } else {
        let prev = words(s.drop_last());
        let c = s.last();
        if is_whitespace(c) {
            prev
        } else if s.len() >= 2 && !is_whitespace(s[s.len() - 2]) {
            prev.update(prev.len() - 1, prev.last().push(c))
        } else {
            prev.push(seq![c])
        }
    }
}

/// No character of `w` is white space.
pub open spec fn no_whitespace(w: Seq<char>) -> bool {
    forall|j: int| 0 <= j < w.len() ==> !is_whitespace(#[trigger] w[j])
}

/// A word: non-empty, with no white space.
pub open spec fn is_word(w: Seq<char>) -> bool {
    w.len() > 0 && no_whitespace(w)
}

/// The texts held by a sequence of strings.
pub open spec fn texts(v: Seq<String>) -> Seq<Seq<char>> {
    v.map_values(|w: String| w@)
}

/// Every word of a text is a word, and a text that ends in a word has one.
pub proof fn lemma_words_are_words(s: Seq<char>)
    ensures
        forall|k: int| 0 <= k < words(s).len() ==> is_word(#[trigger] words(s)[k]),
        s.len() > 0 && !is_whitespace(s.last()) ==> words(s).len() > 0,
    decreases s.len(),
{
    if s.len() > 0 {
        lemma_words_are_words(s.drop_last());
        let prev = words(s.drop_last());
        let c = s.last();
        if !is_whitespace(c) && s.len() >= 2 && !is_whitespace(s[s.len() - 2]) {
            assert(s.drop_last().last() == s[s.len() - 2]);
            let w = prev.last().push(c);
            assert(is_word(prev[prev.len() - 1]));
            assert(is_word(w)) by {
                assert forall|j: int| 0 <= j < w.len() implies !is_whitespace(#[trigger] w[j]) by {
                    if j < w.len() - 1 {
                        assert(w[j] == prev[prev.len() - 1][j]);
                    }
                }
            }
        } else if !is_whitespace(c) {
            assert(is_word(seq![c]));
        }
    }
}

/// Splits a text into its words (as `str::split_whitespace` does).
pub fn split_words(text: &str) -> (out: Vec<String>)
    ensures
        texts(out@) == words(text@),
{
    let v = chars_of(text);
    let n = v.len();
    let mut out: Vec<String> = Vec::new();
    let mut cur = String::new();
    let mut i: usize = 0;
    assert(v@.take(0) =~= Seq::<char>::empty());
    while i < n
        invariant
            i <= n,
            n == v@.len(),
            v@ == text@,
            words(v@.take(i as int)) == texts(out@) + (if cur@.len() > 0 {
                seq![cur@]
            } else {
                Seq::<Seq<char>>::empty()
            }),
            cur@.len() > 0 <==> (i > 0 && !is_whitespace(v@[i - 1])),
        decreases n - i,
    {
        let c = v[i];
        let ghost t = v@.take(i + 1);
        assert(t.drop_last() =~= v@.take(i as int));
        assert(t.last() == c);
        if is_space(c) {
            if cur.as_str().unicode_len() > 0 {
                let ghost before = texts(out@);
                let mut w = String::new();
                std::mem::swap(&mut w, &mut cur);
                out.push(w);
                assert(texts(out@) =~= before.push(w@));
            }
        } else {
            let ghost before = texts(out@);
            let ghost old_cur = cur@;
            if i > 0 {
                assert(t[t.len() - 2] == v@[i - 1]);
            }
            push_char(&mut cur, c);
            assert(words(t) =~= texts(out@) + seq![cur@]) by {
                if old_cur.len() > 0 {
                    let prev = before + seq![old_cur];
                    assert(words(t.drop_last()) == prev);
                    assert(words(t) == prev.update(prev.len() - 1, prev.last().push(c)));
                    assert(prev.update(prev.len() - 1, prev.last().push(c)) =~= before + seq![cur@]);
                } else {
                    assert(words(t.drop_last()) =~= before);
                    assert(words(t) == before.push(seq![c]));
                    assert(cur@ =~= seq![c]);
                }
            }
        }
        i = i + 1;
    }
    assert(v@.take(n as int) =~= v@);
    if cur.as_str().unicode_len() > 0 {
        let ghost before = texts(out@);
        out.push(cur);
        assert(texts(out@) =~= before.push(out@.last()@));
    } else {
        assert(texts(out@) + Seq::<Seq<char>>::empty() =~= texts(out@));
    }
    out
}

/// Greedy line filling over a sequence of words: the lines closed so far
/// and the line being filled. A word joins the current line, after one
/// space, when the result stays within `width` characters; otherwise the
/// current line is closed and the word starts the next one.
pub open spec fn wrap_fold(ws: Seq<Seq<char>>, width: nat) -> (Seq<Seq<char>>, Seq<char>)
    decreases ws.len(),
{
    if ws.len() == 0 {
        (seq![], seq![])
    } else {
        let (lines, line) = wrap_fold(ws.drop_last(), width);
        let w = ws.last();
        if line.len() == 0 {
            (lines, w)
        } else if line.len() + 1 + w.len() <= width {
            (lines, line.push(' ') + w)
        } else {
            (lines.push(line), w)
        }
    }
}

/// The lines of `text` greedily wrapped to `width` characters.
pub open spec fn spec_wrap(text: Seq<char>, width: nat) -> Seq<Seq<char>> {
    let (lines, line) = wrap_fold(words(text), width);
    if line.len() == 0 {
        lines
    } else {
        lines.push(line)
    }
}

/// Greedily word-wraps `text` into lines no wider than `width` characters
/// (a word longer than `width` stands alone on its line).
pub fn wrap(text: &str, width: usize) -> (lines: Vec<String>)
    ensures
        texts(lines@) == spec_wrap(text@, width as nat),
{
    let ws = split_words(text);
    let mut lines: Vec<String> = Vec::new();
    let mut line = String::new();
    let mut line_len: usize = 0;
    let mut k: usize = 0;
    assert(texts(ws@).take(0) =~= Seq::<Seq<char>>::empty());
    while k < ws.len()
        invariant
            k <= ws.len(),
            texts(ws@) == words(text@),
            line_len == line@.len(),
            (texts(lines@), line@) == wrap_fold(texts(ws@).take(k as int), width as nat),
        decreases ws.len() - k,
    {
        let word = ws[k].as_str();
        let word_len = word.unicode_len();
        let ghost before = texts(lines@);
        let ghost old_line = line@;
        let ghost pre = texts(ws@).take(k as int);
        assert(texts(ws@).take(k + 1).drop_last() =~= pre);
        assert(texts(ws@).take(k + 1).last() == word@);
        if line_len == 0 {
            line.append(word);
            line_len = word_len;
            assert(line@ =~= word@);
        } else if word_len <= width && line_len < width - word_len {
            push_char(&mut line, ' ');
            line.append(word);
            line_len = line_len + 1 + word_len;
            assert(line@ =~= old_line.push(' ') + word@);
        } else {
            let mut done = String::new();
            std::mem::swap(&mut done, &mut line);
            lines.push(done);
            line.append(word);
            line_len = word_len;
            assert(texts(lines@) =~= before.push(old_line));
            assert(line@ =~= word@);
        }
        k = k + 1;
    }
    assert(texts(ws@).take(ws@.len() as int) =~= texts(ws@));
    if line_len > 0 {
        let ghost before = texts(lines@);
        lines.push(line);
        assert(texts(lines@) =~= before.push(lines@.last()@));
    }
    lines
}

/// A wrapped line is acceptable when it fits the width or is a single word.
pub open spec fn fits(l: Seq<char>, width: nat) -> bool {
    l.len() <= width || no_whitespace(l)
}

/// The words of each line, one line after the other.
pub open spec fn words_of_lines(ls: Seq<Seq<char>>) -> Seq<Seq<char>>
    decreases ls.len(),
{
    if ls.len() == 0 {
        seq![]
    } else {
        words_of_lines(ls.drop_last()) + words(ls.last())
    }
}

/// Appending a word after white space (or to nothing) appends it to the words.
proof fn lemma_words_append_word(a: Seq<char>, b: Seq<char>)
    requires
        is_word(b),
        a.len() == 0 || is_whitespace(a.last()),
    ensures
        words(a + b) == words(a).push(b),
    decreases b.len(),
{
    let s = a + b;
    assert(s.last() == b.last());
    if b.len() == 1 {
        assert(s.drop_last() =~= a);
        if s.len() >= 2 {
            assert(s[s.len() - 2] == a.last());
        }
        assert(seq![b.last()] =~= b);
    } else {
        let b1 = b.drop_last();
        assert(is_word(b1)) by {
            assert forall|j: int| 0 <= j < b1.len() implies !is_whitespace(#[trigger] b1[j]) by {
                assert(b1[j] == b[j]);
            }
        }
        lemma_words_append_word(a, b1);
        assert(s.drop_last() =~= a + b1);
        assert(s[s.len() - 2] == b[b.len() - 2]);
        let prev = words(a).push(b1);
        assert(b1.push(b.last()) =~= b);
        assert(prev.update(prev.len() - 1, prev.last().push(b.last())) =~= words(a).push(b));
    }
}

/// The words of a line extended by a space and a word.
proof fn lemma_words_join(l: Seq<char>, w: Seq<char>)
    requires
        is_word(w),
    ensures
        words(l.push(' ') + w) == words(l).push(w),
{
    assert(l.push(' ').drop_last() =~= l);
    assert(words(l.push(' ')) == words(l));
    lemma_words_append_word(l.push(' '), w);
}

/// A word is its own only word.
proof fn lemma_words_of_word(w: Seq<char>)
    requires
        is_word(w),
    ensures
        words(w) == seq![w],
{
    lemma_words_append_word(Seq::<char>::empty(), w);
    assert(Seq::<char>::empty() + w =~= w);
}

/// What holds of the lines closed so far and of the line being filled.
spec fn wrap_inv(ws: Seq<Seq<char>>, lines: Seq<Seq<char>>, line: Seq<char>, width: nat) -> bool {
    &&& forall|i: int|
        0 <= i < lines.len() ==> #[trigger] lines[i].len() > 0 && fits(lines[i], width)
            && words(lines[i]).len() > 0
    &&& (line.len() == 0 <==> ws.len() == 0)
    &&& line.len() > 0 ==> fits(line, width) && words(line).len() > 0
    &&& lines.len() > 0 ==> line.len() > 0
    &&& words_of_lines(lines) + words(line) == ws
    &&& forall|i: int|
        0 <= i < lines.len() - 1 ==> #[trigger] lines[i].len() + 1 + words(lines[i + 1])[0].len()
            > width
    &&& lines.len() > 0 ==> lines.last().len() + 1 + words(line)[0].len() > width
}

proof fn lemma_wrap_fold_inv(ws: Seq<Seq<char>>, width: nat)
    requires
        forall|k: int| 0 <= k < ws.len() ==> is_word(#[trigger] ws[k]),
    ensures
        wrap_inv(ws, wrap_fold(ws, width).0, wrap_fold(ws, width).1, width),
    decreases ws.len(),
{
    if ws.len() > 0 {
        let pre = ws.drop_last();
        assert forall|k: int| 0 <= k < pre.len() implies is_word(#[trigger] pre[k]) by {
            assert(pre[k] == ws[k]);
        }
        lemma_wrap_fold_inv(pre, width);
        let (lines, line) = wrap_fold(pre, width);
        let w = ws.last();
        assert(is_word(ws[ws.len() - 1]));
        lemma_words_of_word(w);
        assert(pre.push(w) =~= ws);
        if line.len() == 0 {
            assert(words_of_lines(lines) + words(w) =~= ws);
        } else if line.len() + 1 + w.len() <= width {
            let l2 = line.push(' ') + w;
            lemma_words_join(line, w);
            assert(words_of_lines(lines) + words(l2) =~= ws);
            assert(words(l2)[0] == words(line)[0]);
        } else {
            let lines2 = lines.push(line);
            assert(lines2.drop_last() =~= lines);
            assert(words_of_lines(lines2) == words_of_lines(lines) + words(line));
            assert(words_of_lines(lines2) + words(w) =~= ws);
            assert forall|i: int| 0 <= i < lines2.len() implies #[trigger] lines2[i].len() > 0
                && fits(lines2[i], width) && words(lines2[i]).len() > 0 by {
                if i < lines.len() {
                    assert(lines2[i] == lines[i]);
                }
            }
            assert forall|i: int| 0 <= i < lines2.len() - 1 implies #[trigger] lines2[i].len() + 1
                + words(lines2[i + 1])[0].len() > width by {
                if i < lines.len() - 1 {
                    assert(lines2[i] == lines[i]);
                    assert(lines2[i + 1] == lines[i + 1]);
                } else {
                    assert(lines2[i] == lines.last());
                    assert(lines2[i + 1] == line);
                }
            }
        }
    } else {
        let (lines, line) = wrap_fold(ws, width);
        assert(words_of_lines(lines) + words(line) =~= ws);
    }
}

proof fn lemma_wrap_inv(text: Seq<char>, width: nat)
    ensures
        ({
            let (lines, line) = wrap_fold(words(text), width);
            wrap_inv(words(text), lines, line, width)
        }),
{
    lemma_words_are_words(text);
    lemma_wrap_fold_inv(words(text), width);
}

/// Wrapping loses no word and keeps their order: the words of the lines,
/// one line after the other, are the words of the text.
pub proof fn lemma_wrap_keeps_words(text: Seq<char>, width: nat)
    ensures
        words_of_lines(spec_wrap(text, width)) == words(text),
{
    lemma_wrap_inv(text, width);
    let (lines, line) = wrap_fold(words(text), width);
    if line.len() == 0 {
        assert(words(line) =~= Seq::<Seq<char>>::empty());
        assert(words_of_lines(lines) + words(line) =~= words_of_lines(lines));
    } else {
        assert(lines.push(line).drop_last() =~= lines);
    }
}

/// Every wrapped line is non-empty and no wider than `width`, unless it is a
/// single word longer than `width`.
pub proof fn lemma_wrap_fits(text: Seq<char>, width: nat)
    ensures
        forall|i: int|
            0 <= i < spec_wrap(text, width).len() ==> #[trigger] spec_wrap(text, width)[i].len() > 0
                && fits(spec_wrap(text, width)[i], width),
{
    lemma_wrap_inv(text, width);
    let (lines, line) = wrap_fold(words(text), width);
    let out = spec_wrap(text, width);
    assert forall|i: int| 0 <= i < out.len() implies #[trigger] out[i].len() > 0 && fits(out[i], width) by {
        if i < lines.len() {
            assert(out[i] == lines[i]);
        }
    }
}

/// Wrapping is greedy: the first word of each line after the first would not
/// have fitted, after a space, at the end of the line before it.
pub proof fn lemma_wrap_greedy(text: Seq<char>, width: nat)
    ensures
        forall|i: int|
            0 <= i < spec_wrap(text, width).len() - 1 ==> #[trigger] spec_wrap(text, width)[i].len()
                + 1 + words(spec_wrap(text, width)[i + 1])[0].len() > width,
{
    lemma_wrap_inv(text, width);
    let (lines, line) = wrap_fold(words(text), width);
    let out = spec_wrap(text, width);
    assert forall|i: int| 0 <= i < out.len() - 1 implies #[trigger] out[i].len() + 1 + words(
        out[i + 1],
    )[0].len() > width by {
        if line.len() > 0 {
            if i < lines.len() - 1 {
                assert(out[i] == lines[i]);
                assert(out[i + 1] == lines[i + 1]);
            } else {
                assert(out[i] == lines.last());
                assert(out[i + 1] == line);
            }
        } else {
            assert(out[i] == lines[i]);
            assert(out[i + 1] == lines[i + 1]);
        }
    }
}

/// The number that a string of decimal digits reads as.
pub open spec fn digits_value(s: Seq<char>) -> int
    decreases s.len(),
{
    if s.len() == 0 {
        0
    } else {
        digits_value(s.drop_last()) * 10 + (s.last() as int - '0' as int)
    }
}

/// The decimal writing of `n` is made of the digits `0`-`9`, reads as `n`,
/// and has no leading zero (except `0` itself).
pub proof fn lemma_decimal_reads_back(n: nat)
    ensures
        decimal(n).len() > 0,
        forall|k: int| 0 <= k < decimal(n).len() ==> "0123456789"@.contains(#[trigger] decimal(n)[k]),
        digits_value(decimal(n)) == n,
        n > 0 ==> decimal(n)[0] != '0',
    decreases n,
{
    reveal_strlit("0123456789");
    let d = decimal(n);
    let c = digit_char(n % 10);
    assert("0123456789"@[(n % 10) as int] == c);
    assert(c as int - '0' as int == n % 10);
    assert((n / 10) * 10 + n % 10 == n);
    if n >= 10 {
        lemma_decimal_reads_back(n / 10);
        assert(d.drop_last() =~= decimal(n / 10));
        assert(d.last() == c);
        assert(digits_value(d) == digits_value(decimal(n / 10)) * 10 + (c as int - '0' as int));
        assert forall|k: int| 0 <= k < d.len() implies "0123456789"@.contains(#[trigger] d[k]) by {
            if k < d.len() - 1 {
                assert(d[k] == decimal(n / 10)[k]);
            } else {
                assert("0123456789"@[(n % 10) as int] == d[k]);
            }
        }
    } else {
        assert(d.drop_last() =~= Seq::<char>::empty());
        assert(digits_value(d.drop_last()) == 0);
        assert(d.last() == c);
        assert("0123456789"@[n as int] == d[0]);
    }
}

/// The words one after the other.
pub open spec fn concat_words(ws: Seq<Seq<char>>) -> Seq<char>
    decreases ws.len(),
{
    if ws.len() == 0 {
        seq![]
    } else {
        concat_words(ws.drop_last()) + ws.last()
    }
}

/// The characters of `s` that are not white space, in order.
pub open spec fn non_space_chars(s: Seq<char>) -> Seq<char> {
    s.filter(|c: char| !is_whitespace(c))
}

proof fn lemma_concat_update_last(ws: Seq<Seq<char>>, c: char)
    requires
        ws.len() > 0,
    ensures
        concat_words(ws.update(ws.len() - 1, ws.last().push(c))) == concat_words(ws).push(c),
{
    let u = ws.update(ws.len() - 1, ws.last().push(c));
    assert(u.drop_last() =~= ws.drop_last());
    assert(concat_words(u) =~= concat_words(ws).push(c));
}

/// Splitting into words keeps every character that is not white space, in
/// order, and only those; and a word ends exactly where the text has white
/// space or ends.
pub proof fn lemma_words_keep_text(s: Seq<char>)
    ensures
        concat_words(words(s)) == non_space_chars(s),
        words(s).len() == word_starts(s),
    decreases s.len(),
{
    reveal_with_fuel(Seq::<char>::filter, 1);
    if s.len() > 0 {
        let p = s.drop_last();
        lemma_words_keep_text(p);
        lemma_words_are_words(p);
        let c = s.last();
        assert(non_space_chars(s) =~= if is_whitespace(c) {
            non_space_chars(p)
        } else {
            non_space_chars(p).push(c)
        });
        if !is_whitespace(c) {
            if s.len() >= 2 && !is_whitespace(s[s.len() - 2]) {
                assert(p.last() == s[s.len() - 2]);
                lemma_concat_update_last(words(p), c);
            } else {
                let w = words(p);
                assert(w.push(seq![c]).drop_last() =~= w);
                assert(concat_words(w.push(seq![c])) =~= concat_words(w).push(c));
            }
        }
    }
}

/// The number of places where a word starts: a character that is not white
/// space and is first or follows white space.
pub open spec fn word_starts(s: Seq<char>) -> nat
    decreases s.len(),
{
    if s.len() == 0 {
        0
    } else {
        word_starts(s.drop_last()) + if !is_whitespace(s.last()) && (s.len() == 1
            || is_whitespace(s[s.len() - 2])) {
            1nat
        } else {
            0nat
        }
    }
}

/// White space is exactly the Unicode White_Space set: tab, line feed,
/// vertical tab, form feed, carriage return, space, next line, no-break
/// space, ogham space mark, the spaces U+2000 to U+200A, line and paragraph
/// separators, narrow no-break space, medium mathematical space and
/// ideographic space.
pub proof fn lemma_whitespace_set(c: char)
    ensures
        is_whitespace(c) <==> seq![
            '\t', '\n', '\u{b}', '\u{c}', '\r', ' ', '\u{85}', '\u{a0}', '\u{1680}', '\u{2000}',
            '\u{2001}', '\u{2002}', '\u{2003}', '\u{2004}', '\u{2005}', '\u{2006}', '\u{2007}',
            '\u{2008}', '\u{2009}', '\u{200a}', '\u{2028}', '\u{2029}', '\u{202f}', '\u{205f}',
            '\u{3000}',
        ].contains(c),
{
    let t = seq![
        '\t', '\n', '\u{b}', '\u{c}', '\r', ' ', '\u{85}', '\u{a0}', '\u{1680}', '\u{2000}',
        '\u{2001}', '\u{2002}', '\u{2003}', '\u{2004}', '\u{2005}', '\u{2006}', '\u{2007}',
        '\u{2008}', '\u{2009}', '\u{200a}', '\u{2028}', '\u{2029}', '\u{202f}', '\u{205f}',
        '\u{3000}',
    ];
    if is_whitespace(c) {
        let u = c as int;
        let i: int = if 9 <= u <= 13 {
            u - 9
        } else if u == 32 {
            5
        } else if u == 0x85 {
            6
        } else if u == 0xA0 {
            7
        } else if u == 0x1680 {
            8
        } else if 0x2000 <= u <= 0x200A {
            9 + (u - 0x2000)
        } else if u == 0x2028 {
            20
        } else if u == 0x2029 {
            21
        } else if u == 0x202F {
            22
        } else if u == 0x205F {
            23
        } else {
            24
        };
        assert(t[i] == c);
    }
}

} // verus!
