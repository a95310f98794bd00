use vstd::prelude::*;
use crate::text::{chars_of, push_char, push_decimal, decimal};

verus! {

/// A color in 8-bit sRGB.
#[derive(Clone, Copy, Debug, PartialEq, Eq, Structural)]
pub struct Srgb {
    pub r: u8,
    pub g: u8,
    pub b: u8,
}

/// Why a hex color was refused.
#[derive(Clone, Copy, Debug, PartialEq, Eq, Structural)]
pub enum ParseHexError {
    /// The number of digits (after an optional leading `#`) is not 3, 4, 6 or 8.
    BadLength(usize),
    /// The first character that is not an ASCII hex digit.
    BadDigit(char),
}

/// An ASCII hexadecimal digit, either case.
pub open spec fn is_hex_digit(c: char) -> bool {
    ('0' <= c && c <= '9') || ('a' <= c && c <= 'f') || ('A' <= c && c <= 'F')
}

/// The value of a hexadecimal digit.
pub open spec fn hex_digit_value(c: char) -> int {
    if '0' <= c && c <= '9' {
        c as int - '0' as int
    } else if 'a' <= c && c <= 'f' {
        c as int - 'a' as int + 10
    } else {
        c as int - 'A' as int + 10
    }
}

/// The text with one leading `#` removed, if it has one.
pub open spec fn strip_hash(s: Seq<char>) -> Seq<char> {
    if s.len() > 0 && s[0] == '#' {
        s.drop_first()
    } else {
        s
    }
}

/// The first character of `s` that is not a hex digit, if any.
pub open spec fn first_non_hex_digit(s: Seq<char>) -> Option<char>
    decreases s.len(),
{
    if s.len() == 0 {
        None
    } else if !is_hex_digit(s[0]) {
        Some(s[0])
    } else {
        first_non_hex_digit(s.drop_first())
    }
}

/// The lengths of digit strings that denote a color: shorthand `rgb`,
/// shorthand with alpha `rgba`, full `rrggbb`, full with alpha `rrggbbaa`.
pub open spec fn is_color_length(n: nat) -> bool {
    n == 3 || n == 4 || n == 6 || n == 8
}

/// Channel `k` (0 red, 1 green, 2 blue) of a string of hex digits of a color
/// length: in shorthand each digit is doubled, in full form it takes two digits.
pub open spec fn channel(d: Seq<char>, k: int) -> u8 {
    if d.len() == 3 || d.len() == 4 {
        (hex_digit_value(d[k]) * 17) as u8
    } else {
        (hex_digit_value(d[2 * k]) * 16 + hex_digit_value(d[2 * k + 1])) as u8
    }
}

/// What parsing a hex color gives: a leading `#` is optional, a bad digit is
/// reported before a bad length, and an alpha digit or pair is ignored.
pub open spec fn spec_from_hex(s: Seq<char>) -> Result<Srgb, ParseHexError> {
    let d = strip_hash(s);
    match first_non_hex_digit(d) {
        Some(c) => Err(ParseHexError::BadDigit(c)),
        None => if is_color_length(d.len()) {
            Ok(Srgb { r: channel(d, 0), g: channel(d, 1), b: channel(d, 2) })
        } else {
            Err(ParseHexError::BadLength(d.len() as usize))
        },
    }
}

/// The lowercase hex digit of a value below 16.
pub open spec fn hex_char(d: int) -> char {
    if d < 10 {
        ('0' as int + d) as char
    } else {
        ('a' as int + d - 10) as char
    }
}

/// The two lowercase hex digits of a byte.
pub open spec fn hex_pair(v: u8) -> Seq<char> {
    seq![hex_char((v / 16) as int), hex_char((v % 16) as int)]
}

/// `#rrggbb` in lowercase.
pub open spec fn spec_to_hex(c: Srgb) -> Seq<char> {
    seq!['#'] + hex_pair(c.r) + hex_pair(c.g) + hex_pair(c.b)
}

/// Whether `c` is an ASCII hex digit.
pub fn is_ascii_hex_digit(c: char) -> (b: bool)
    ensures
        b == is_hex_digit(c),
{
    ('0' <= c && c <= '9') || ('a' <= c && c <= 'f') || ('A' <= c && c <= 'F')
}

/// The value of a hex digit.
fn digit_value(c: char) -> (v: u8)
    requires
        is_hex_digit(c),
    ensures
        v as int == hex_digit_value(c),
        v < 16,
{
    let u = c as u32;
    if '0' <= c && c <= '9' {
        (u - 48) as u8
    } else if 'a' <= c && c <= 'f' {
        (u - 87) as u8
    } else {
        (u - 55) as u8
    }
}

/// The lowercase hex digit of a value below 16.
fn hex_digit_char(d: u8) -> (c: char)
    requires
        d < 16,
    ensures
        c == hex_char(d as int),
{
    if d < 10 {
        (48u8 + d) as char
    } else {
        (87u8 + d) as char
    }
}

proof fn lemma_first_non_hex_skip(s: Seq<char>, i: int)
    requires
        0 <= i <= s.len(),
        forall|j: int| 0 <= j < i ==> is_hex_digit(#[trigger] s[j]),
    ensures
        first_non_hex_digit(s) == first_non_hex_digit(s.skip(i)),
    decreases i,
{
    if i == 0 {
        assert(s.skip(0) =~= s);
    } else {
        lemma_first_non_hex_skip(s, i - 1);
        let t = s.skip(i - 1);
        assert(t[0] == s[i - 1]);
        assert(t.drop_first() =~= s.skip(i));
    }
}

/// A string of hex digits has no first non-digit.
pub proof fn lemma_all_hex_digits(s: Seq<char>)
    requires
        forall|j: int| 0 <= j < s.len() ==> is_hex_digit(#[trigger] s[j]),
    ensures
        first_non_hex_digit(s) is None,
{
    lemma_first_non_hex_skip(s, s.len() as int);
    assert(s.skip(s.len() as int).len() == 0);
}

impl Srgb {
    /// Builds a color from its three channels.
    pub fn new(r: u8, g: u8, b: u8) -> (c: Srgb)
        ensures
            c.r == r,
            c.g == g,
            c.b == b,
    {
        Srgb { r, g, b }
    }

    /// Parses `#rgb`, `#rgba`, `#rrggbb` or `#rrggbbaa` (the `#` optional,
    /// digits of either case; alpha is ignored).
    pub fn from_hex(s: &str) -> (res: Result<Srgb, ParseHexError>)
        ensures
            res == spec_from_hex(s@),
    {
        let v = chars_of(s);
        let n = v.len();
        let start: usize = if n > 0 && v[0] == '#' { 1 } else { 0 };
        let ghost d = strip_hash(s@);
        assert(d =~= v@.skip(start as int));
        let mut i = start;
        while i < n
            invariant
                start <= i <= n,
                n == v@.len(),
                v@ == s@,
                d == v@.skip(start as int),
                d == strip_hash(s@),
                forall|j: int| 0 <= j < i - start ==> is_hex_digit(#[trigger] d[j]),
            decreases n - i,
        {
            let c = v[i];
            if !is_ascii_hex_digit(c) {
                proof {
                    lemma_first_non_hex_skip(d, i - start);
                    let t = d.skip(i - start);
                    assert(t[0] == c);
                    assert(first_non_hex_digit(t) == Some(c));
                    assert(first_non_hex_digit(d) == Some(c));
                }
                return Err(ParseHexError::BadDigit(c));
            }
            i = i + 1;
        }
        proof {
            lemma_all_hex_digits(d);
        }
        let len = n - start;
        if len == 3 || len == 4 {
            let r = digit_value(v[start]) * 17;
            let g = digit_value(v[start + 1]) * 17;
            let b = digit_value(v[start + 2]) * 17;
            Ok(Srgb { r, g, b })
        } else if len == 6 || len == 8 {
            let r = digit_value(v[start]) * 16 + digit_value(v[start + 1]);
            let g = digit_value(v[start + 2]) * 16 + digit_value(v[start + 3]);
            let b = digit_value(v[start + 4]) * 16 + digit_value(v[start + 5]);
            Ok(Srgb { r, g, b })
        } else {
            Err(ParseHexError::BadLength(len))
        }
    }

    /// Formats as `#rrggbb` in lowercase.
    pub fn to_hex(self) -> (s: String)
        ensures
            s@ == spec_to_hex(self),
    {
        let mut s = String::new();
        push_char(&mut s, '#');
        push_char(&mut s, hex_digit_char(self.r / 16));
        push_char(&mut s, hex_digit_char(self.r % 16));
        push_char(&mut s, hex_digit_char(self.g / 16));
        push_char(&mut s, hex_digit_char(self.g % 16));
        push_char(&mut s, hex_digit_char(self.b / 16));
        push_char(&mut s, hex_digit_char(self.b % 16));
        assert(s@ =~= spec_to_hex(self));
        s
    }
}

proof fn lemma_hex_char(x: int)
    requires
        0 <= x < 16,
    ensures
        is_hex_digit(hex_char(x)),
        hex_digit_value(hex_char(x)) == x,
        'a' <= hex_char(x) ==> hex_char(x) <= 'f',
{
}

/// Formatting a color as hex and parsing it back gives the same color.
pub proof fn lemma_hex_roundtrip(c: Srgb)
    ensures
        spec_from_hex(spec_to_hex(c)) == Ok::<Srgb, ParseHexError>(c),
{
    let s = spec_to_hex(c);
    let d = strip_hash(s);
    lemma_hex_char((c.r / 16) as int);
    lemma_hex_char((c.r % 16) as int);
    lemma_hex_char((c.g / 16) as int);
    lemma_hex_char((c.g % 16) as int);
    lemma_hex_char((c.b / 16) as int);
    lemma_hex_char((c.b % 16) as int);
    assert(d =~= hex_pair(c.r) + hex_pair(c.g) + hex_pair(c.b));
    lemma_all_hex_digits(d);
}

proof fn lemma_first_non_hex_none(s: Seq<char>)
    requires
        first_non_hex_digit(s) is None,
    ensures
        forall|j: int| 0 <= j < s.len() ==> is_hex_digit(#[trigger] s[j]),
    decreases s.len(),
{
    if s.len() > 0 {
        lemma_first_non_hex_none(s.drop_first());
        assert forall|j: int| 0 <= j < s.len() implies is_hex_digit(#[trigger] s[j]) by {
            if j > 0 {
                assert(s[j] == s.drop_first()[j - 1]);
            }
        }
    }
}

/// Formatting gives seven characters: `#` then six lowercase hex digits.
pub proof fn lemma_to_hex_canonical(c: Srgb)
    ensures
        spec_to_hex(c).len() == 7,
        spec_to_hex(c)[0] == '#',
        forall|j: int|
            1 <= j < 7 ==> is_hex_digit(#[trigger] spec_to_hex(c)[j]) && !('A' <= spec_to_hex(c)[j]
                && spec_to_hex(c)[j] <= 'F'),
{
    lemma_hex_char((c.r / 16) as int);
    lemma_hex_char((c.r % 16) as int);
    lemma_hex_char((c.g / 16) as int);
    lemma_hex_char((c.g % 16) as int);
    lemma_hex_char((c.b / 16) as int);
    lemma_hex_char((c.b % 16) as int);
}

/// The leading `#` is optional: writing it or leaving it off gives the same
/// result.
pub proof fn lemma_hash_optional(s: Seq<char>)
    requires
        s.len() == 0 || s[0] != '#',
    ensures
        spec_from_hex(seq!['#'] + s) == spec_from_hex(s),
{
    assert((seq!['#'] + s).drop_first() =~= s);
}

/// A character that is not a hex digit is reported, whatever the length of
/// the text: the digit check comes before the length check.
pub proof fn lemma_bad_digit_first(s: Seq<char>, i: int)
    requires
        0 <= i < strip_hash(s).len(),
        !is_hex_digit(strip_hash(s)[i]),
    ensures
        spec_from_hex(s) is Err,
        spec_from_hex(s)->Err_0 is BadDigit,
{
    let d = strip_hash(s);
    if first_non_hex_digit(d) is None {
        lemma_first_non_hex_none(d);
        assert(is_hex_digit(d[i]));
    }
}

/// The shorthand `rgb` denotes the same color as `rrggbb`.
pub proof fn lemma_shorthand_doubles(a: char, b: char, c: char)
    requires
        is_hex_digit(a),
        is_hex_digit(b),
        is_hex_digit(c),
    ensures
        spec_from_hex(seq![a, b, c]) == spec_from_hex(seq![a, a, b, b, c, c]),
        spec_from_hex(seq![a, b, c]) is Ok,
{
    let short = seq![a, b, c];
    let long = seq![a, a, b, b, c, c];
    assert(strip_hash(short) == short);
    assert(strip_hash(long) == long);
    lemma_all_hex_digits(short);
    lemma_all_hex_digits(long);
}

/// An alpha digit after `rgb`, or an alpha pair after `rrggbb`, is ignored.
pub proof fn lemma_alpha_ignored(d: Seq<char>, alpha: Seq<char>)
    requires
        (d.len() == 3 && alpha.len() == 1) || (d.len() == 6 && alpha.len() == 2),
        forall|j: int| 0 <= j < d.len() ==> is_hex_digit(#[trigger] d[j]),
        forall|j: int| 0 <= j < alpha.len() ==> is_hex_digit(#[trigger] alpha[j]),
    ensures
        spec_from_hex(d + alpha) == spec_from_hex(d),
        spec_from_hex(d) is Ok,
{
    let full = d + alpha;
    assert(strip_hash(d) == d);
    assert(strip_hash(full) == full);
    assert forall|j: int| 0 <= j < full.len() implies is_hex_digit(#[trigger] full[j]) by {
        if j < d.len() {
            assert(full[j] == d[j]);
        } else {
            assert(full[j] == alpha[j - d.len()]);
        }
    }
    lemma_all_hex_digits(d);
    lemma_all_hex_digits(full);
}

/// The text shown for a refused hex color.
pub open spec fn spec_message(e: ParseHexError) -> Seq<char> {
    match e {
        ParseHexError::BadLength(n) => "expected 3, 6, or 8 hex digits, got "@ + decimal(n as nat),
        ParseHexError::BadDigit(c) => "invalid hex digit '"@ + seq![c] + "'"@,
    }
}

impl ParseHexError {
    /// The text shown for this error.
    pub fn message(&self) -> (m: String)
        ensures
            m@ == spec_message(*self),
    {
        match self {
            ParseHexError::BadLength(n) => {
                let mut m = String::from_str("expected 3, 6, or 8 hex digits, got ");
                push_decimal(&mut m, *n as u64);
                m
            },
            ParseHexError::BadDigit(c) => {
                let mut m = String::from_str("invalid hex digit '");
                push_char(&mut m, *c);
                m.append("'");
                m
            },
        }
    }
}

/// The number of `"` characters that `s` starts with.
pub open spec fn leading_quotes(s: Seq<char>) -> nat
    decreases s.len(),
{
    if s.len() > 0 && s[0] == '"' {
        1 + leading_quotes(s.drop_first())
    } else {
        0
    }
}

/// The number of `"` characters that `s` ends with.
pub open spec fn trailing_quotes(s: Seq<char>) -> nat
    decreases s.len(),
{
    if s.len() > 0 && s.last() == '"' {
        1 + trailing_quotes(s.drop_last())
    } else {
        0
    }
}

/// `s` with every leading and every trailing `"` removed.
pub open spec fn trim_quotes(s: Seq<char>) -> Seq<char> {
    let t = s.skip(leading_quotes(s) as int);
    t.take(t.len() - trailing_quotes(t))
}

/// Whether a word reads as a hex color: after removing surrounding quotes
/// and one leading `#`, it is 3, 6 or 8 hex digits.
pub open spec fn spec_is_hex_value(w: Seq<char>) -> bool {
    let inner = strip_hash(trim_quotes(w));
    &&& (inner.len() == 3 || inner.len() == 6 || inner.len() == 8)
    &&& forall|j: int| 0 <= j < inner.len() ==> is_hex_digit(#[trigger] inner[j])
}

/// The bounds `(i, j)` of `s` with its surrounding quotes removed.
fn trim_quote_bounds(v: &Vec<char>) -> (b: (usize, usize))
    ensures
        b.0 <= b.1 <= v.len(),
        v@.subrange(b.0 as int, b.1 as int) == trim_quotes(v@),
{
    let n = v.len();
    let mut i: usize = 0;
    assert(v@.skip(0) =~= v@);
    while i < n && v[i] == '"'
        invariant
            i <= n,
            n == v@.len(),
            leading_quotes(v@) == i + leading_quotes(v@.skip(i as int)),
        decreases n - i,
    {
        assert(v@.skip(i as int).drop_first() =~= v@.skip(i + 1));
        i = i + 1;
    }
    let ghost t = v@.skip(i as int);
    assert(leading_quotes(t) == 0);
    let mut j: usize = n;
    while j > i && v[j - 1] == '"'
        invariant
            i <= j <= n,
            n == v@.len(),
            t == v@.skip(i as int),
            trailing_quotes(t) == (n - j) + trailing_quotes(v@.subrange(i as int, j as int)),
        decreases j,
    {
        assert(v@.subrange(i as int, j as int).drop_last() =~= v@.subrange(i as int, j - 1));
        j = j - 1;
    }
    assert(trailing_quotes(v@.subrange(i as int, j as int)) == 0);
    assert(t =~= v@.subrange(i as int, n as int));
    assert(t.take(t.len() - trailing_quotes(t)) =~= v@.subrange(i as int, j as int));
    (i, j)
}

/// Whether a word reads as a hex color value (`3b82f6`, `"#3b82f6"`, `f00`).
pub fn is_hex_value(word: &str) -> (b: bool)
    ensures
        b == spec_is_hex_value(word@),
{
    let v = chars_of(word);
    let (i, j) = trim_quote_bounds(&v);
    let ghost trimmed = v@.subrange(i as int, j as int);
    let start = if i < j && v[i] == '#' { i + 1 } else { i };
    let ghost inner = strip_hash(trimmed);
    assert(inner =~= v@.subrange(start as int, j as int));
    let len = j - start;
    assert(inner.len() == len);
    assert(inner == strip_hash(trim_quotes(word@)));
    if !(len == 3 || len == 6 || len == 8) {
        return false;
    }
    let mut k = start;
    while k < j
        invariant
            start <= k <= j <= v.len(),
            inner == v@.subrange(start as int, j as int),
            inner == strip_hash(trim_quotes(word@)),
            forall|m: int| 0 <= m < k - start ==> is_hex_digit(#[trigger] inner[m]),
        decreases j - k,
    {
        if !is_ascii_hex_digit(v[k]) {
            assert(inner[k - start] == v[k as int]);
            return false;
        }
        k = k + 1;
    }
    true
}

/// A word that reads as a hex color parses as one once its quotes are removed.
pub proof fn lemma_hex_value_parses(w: Seq<char>)
    requires
        spec_is_hex_value(w),
    ensures
        spec_from_hex(trim_quotes(w)) is Ok,
{
    lemma_all_hex_digits(strip_hash(trim_quotes(w)));
}

/// The lowercase hex digits, in order of value.
pub open spec fn lower_digits() -> Seq<char> {
    "0123456789abcdef"@
}

/// The uppercase hex digits, in order of value.
pub open spec fn upper_digits() -> Seq<char> {
    "0123456789ABCDEF"@
}

/// `s` with the uppercase hex letters `A`-`F` turned to lowercase; every
/// other character is kept.
pub open spec fn lower_hex_letters(s: Seq<char>) -> Seq<char> {
    s.map_values(|c: char| if 'A' <= c && c <= 'F' { (c as int + 32) as char } else { c })
}

/// The digit written for each value below 16 is the standard lowercase one:
/// `0`-`9`, then `a`-`f`.
pub proof fn lemma_hex_char_is_standard(d: int)
    requires
        0 <= d < 16,
    ensures
        hex_char(d) == lower_digits()[d],
{
    reveal_strlit("0123456789abcdef");
}

/// Every hex digit, of either case, has its standard value: its position
/// among `0123456789abcdef` or among `0123456789ABCDEF`.
pub proof fn lemma_hex_digit_value_is_standard(c: char)
    requires
        is_hex_digit(c),
    ensures
        0 <= hex_digit_value(c) < 16,
        !('A' <= c && c <= 'F') ==> lower_digits()[hex_digit_value(c)] == c,
        !('a' <= c && c <= 'f') ==> upper_digits()[hex_digit_value(c)] == c,
{
    reveal_strlit("0123456789abcdef");
    reveal_strlit("0123456789ABCDEF");
}

/// Formatting writes `#` then, for red, green and blue in turn, the standard
/// lowercase digit of the byte's high nibble and then of its low nibble.
pub proof fn lemma_to_hex_digits(c: Srgb)
    ensures
        spec_to_hex(c) == seq![
            '#',
            lower_digits()[(c.r / 16) as int],
            lower_digits()[(c.r % 16) as int],
            lower_digits()[(c.g / 16) as int],
            lower_digits()[(c.g % 16) as int],
            lower_digits()[(c.b / 16) as int],
            lower_digits()[(c.b % 16) as int],
        ],
{
    lemma_hex_char_is_standard((c.r / 16) as int);
    lemma_hex_char_is_standard((c.r % 16) as int);
    lemma_hex_char_is_standard((c.g / 16) as int);
    lemma_hex_char_is_standard((c.g % 16) as int);
    lemma_hex_char_is_standard((c.b / 16) as int);
    lemma_hex_char_is_standard((c.b % 16) as int);
    assert(spec_to_hex(c) =~= seq![
        '#',
        lower_digits()[(c.r / 16) as int],
        lower_digits()[(c.r % 16) as int],
        lower_digits()[(c.g / 16) as int],
        lower_digits()[(c.g % 16) as int],
        lower_digits()[(c.b / 16) as int],
        lower_digits()[(c.b % 16) as int],
    ]);
}

proof fn lemma_lower_hex_letter(c: char)
    ensures
        is_hex_digit(lower_hex_letters(seq![c])[0]) == is_hex_digit(c),
        is_hex_digit(c) ==> hex_digit_value(lower_hex_letters(seq![c])[0]) == hex_digit_value(c),
        !is_hex_digit(c) ==> lower_hex_letters(seq![c])[0] == c,
        c == '#' ==> lower_hex_letters(seq![c])[0] == '#',
{
}

proof fn lemma_first_non_hex_lower(d: Seq<char>)
    ensures
        first_non_hex_digit(lower_hex_letters(d)) == first_non_hex_digit(d),
    decreases d.len(),
{
    if d.len() > 0 {
        let t = lower_hex_letters(d);
        lemma_lower_hex_letter(d[0]);
        assert(lower_hex_letters(seq![d[0]])[0] == t[0]);
        assert(t.drop_first() =~= lower_hex_letters(d.drop_first()));
        lemma_first_non_hex_lower(d.drop_first());
    }
}

/// Case does not matter: parsing gives the same result once the hex letters
/// `A`-`F` are turned to lowercase.
pub proof fn lemma_from_hex_ignores_case(s: Seq<char>)
    ensures
        spec_from_hex(lower_hex_letters(s)) == spec_from_hex(s),
{
    let t = lower_hex_letters(s);
    let d = strip_hash(s);
    if s.len() > 0 {
        lemma_lower_hex_letter(s[0]);
        assert(lower_hex_letters(seq![s[0]])[0] == t[0]);
    }
    assert(strip_hash(t) =~= lower_hex_letters(d));
    let e = strip_hash(t);
    lemma_first_non_hex_lower(d);
    if first_non_hex_digit(d) is None {
        lemma_first_non_hex_none(d);
        assert forall|k: int| 0 <= k < d.len() implies hex_digit_value(#[trigger] e[k]) == hex_digit_value(d[k]) by {
            lemma_lower_hex_letter(d[k]);
            assert(lower_hex_letters(seq![d[k]])[0] == e[k]);
        }
        if is_color_length(d.len()) {
            assert(d.len() == 3 || d.len() == 4 ==> channel(e, 0) == channel(d, 0) && channel(e, 1)
                == channel(d, 1) && channel(e, 2) == channel(d, 2));
            assert(channel(e, 0) == channel(d, 0));
            assert(channel(e, 1) == channel(d, 1));
            assert(channel(e, 2) == channel(d, 2));
        }
    }
}

proof fn lemma_pair_nibbles(a: char, b: char)
    requires
        is_hex_digit(a),
        is_hex_digit(b),
    ensures
        ({
            let v = hex_digit_value(a) * 16 + hex_digit_value(b);
            &&& 0 <= v < 256
            &&& (v as u8) / 16 == hex_digit_value(a)
            &&& (v as u8) % 16 == hex_digit_value(b)
        }),
{
    let hi = hex_digit_value(a);
    let lo = hex_digit_value(b);
    lemma_hex_digit_value_is_standard(a);
    lemma_hex_digit_value_is_standard(b);
    assert((hi * 16 + lo) / 16 == hi && (hi * 16 + lo) % 16 == lo) by (nonlinear_arith)
        requires
            0 <= hi < 16,
            0 <= lo < 16,
    ;
}

/// Parsing six hex digits and formatting the color gives back `#` and the
/// same digits, in lowercase: each pair of digits is one channel, high
/// nibble first.
pub proof fn lemma_parse_then_format(d: Seq<char>)
    requires
        d.len() == 6,
        forall|k: int| 0 <= k < 6 ==> is_hex_digit(#[trigger] d[k]),
    ensures
        spec_from_hex(d) is Ok,
        spec_to_hex(spec_from_hex(d)->Ok_0) == seq!['#'] + lower_hex_letters(d),
{
    assert(strip_hash(d) == d);
    lemma_all_hex_digits(d);
    let c = spec_from_hex(d)->Ok_0;
    assert forall|k: int| 0 <= k < 6 implies hex_char(hex_digit_value(#[trigger] d[k]))
        == lower_hex_letters(d)[k] by {
        lemma_hex_digit_value_is_standard(d[k]);
        lemma_hex_char_is_standard(hex_digit_value(d[k]));
        reveal_strlit("0123456789abcdef");
        reveal_strlit("0123456789ABCDEF");
    }
    lemma_pair_nibbles(d[0], d[1]);
    lemma_pair_nibbles(d[2], d[3]);
    lemma_pair_nibbles(d[4], d[5]);
    assert(spec_to_hex(c) =~= seq!['#'] + lower_hex_letters(d));
}

/// A word reads as a hex color exactly when, its quotes removed, it parses
/// as a color and is not the four-digit shorthand with alpha.
pub proof fn lemma_hex_value_iff_parses(w: Seq<char>)
    ensures
        spec_is_hex_value(w) <==> (spec_from_hex(trim_quotes(w)) is Ok && strip_hash(
            trim_quotes(w),
        ).len() != 4),
{
    let d = strip_hash(trim_quotes(w));
    if spec_is_hex_value(w) {
        lemma_all_hex_digits(d);
    }
    if spec_from_hex(trim_quotes(w)) is Ok {
        lemma_first_non_hex_none(d);
    }
}

} // verus!
