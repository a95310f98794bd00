use vstd::prelude::*;
use crate::text::{chars_of, decimal, push_decimal, texts};

verus! {

/// One design token of a scale: its step number and its value (the OKLCH
/// CSS value in the Tailwind and CSS files, the hex color in the JSON file).
pub type Token = (u16, String);

/// An ASCII letter.
pub open spec fn is_ascii_letter(c: char) -> bool {
    ('a' <= c && c <= 'z') || ('A' <= c && c <= 'Z')
}

/// A name usable unquoted as a JavaScript object key: non-empty, made of `_`
/// and ASCII letters, with ASCII digits allowed after the first character.
pub open spec fn is_js_identifier(s: Seq<char>) -> bool {
    &&& s.len() > 0
    &&& forall|i: int|
        0 <= i < s.len() ==> (#[trigger] s[i] == '_' || is_ascii_letter(s[i]) || (i > 0 && '0'
            <= s[i] && s[i] <= '9'))
}

/// The key under which a scale is written in a JavaScript object: the name
/// itself when it is an identifier, else the name in double quotes.
pub open spec fn spec_js_key(name: Seq<char>) -> Seq<char> {
    if is_js_identifier(name) {
        name
    } else {
        "\""@ + name + "\""@
    }
}

/// The JavaScript object key for a scale name.
pub fn js_key(name: &str) -> (k: String)
    ensures
        k@ == spec_js_key(name@),
{
    let v = chars_of(name);
    let mut ok = v.len() > 0;
    let mut i: usize = 0;
    while i < v.len() && ok
        invariant
            i <= v.len(),
            v@ == name@,
            ok ==> v.len() > 0,
            ok ==> forall|j: int|
                0 <= j < i ==> (#[trigger] v@[j] == '_' || is_ascii_letter(v@[j]) || (j > 0
                    && '0' <= v@[j] && v@[j] <= '9')),
            !ok ==> !is_js_identifier(name@),
        decreases v.len() - i,
    {
        let c = v[i];
        if !(c == '_' || ('a' <= c && c <= 'z') || ('A' <= c && c <= 'Z') || (i > 0 && '0' <= c
            && c <= '9')) {
            ok = false;
        }
        i = i + 1;
    }
    if ok {
        String::from_str(name)
    } else {
        let mut k = String::from_str("\"");
        k.append(name);
        k.append("\"");
        k
    }
}

/// The entry lines of the Tailwind snippet, one per token.
pub open spec fn tailwind_entries(tokens: Seq<Token>) -> Seq<char>
    decreases tokens.len(),
{
    if tokens.len() == 0 {
        seq![]
    } else {
        tailwind_entries(tokens.drop_last()) + "          \""@ + decimal(tokens.last().0 as nat)
            + "\": \""@ + tokens.last().1@ + "\",\n"@
    }
}

/// The text of `tailwind.colors.js`: a `module.exports` snippet extending the
/// theme colors with the scale, step numbers quoted as keys.
pub open spec fn spec_tailwind_config(name: Seq<char>, tokens: Seq<Token>) -> Seq<char> {
    "/** Generated by chromix. Drop into your tailwind.config.js. */\nmodule.exports = {\n  theme: {\n    extend: {\n      colors: {\n        "@
        + spec_js_key(name) + ": {\n"@ + tailwind_entries(tokens)
        + "        },\n      },\n    },\n  },\n};\n"@
}

/// The text of `tailwind.colors.js` for a scale named `name`.
pub fn tailwind_config(name: &str, tokens: &Vec<Token>) -> (s: String)
    ensures
        s@ == spec_tailwind_config(name@, tokens@),
{
    let mut s = String::from_str(
        "/** Generated by chromix. Drop into your tailwind.config.js. */\nmodule.exports = {\n  theme: {\n    extend: {\n      colors: {\n        ",
    );
    let key = js_key(name);
    s.append(key.as_str());
    s.append(": {\n");
    let ghost head = s@;
    let mut i: usize = 0;
    assert(tokens@.take(0) =~= Seq::<Token>::empty());
    assert(s@ =~= head + tailwind_entries(tokens@.take(0)));
    while i < tokens.len()
        invariant
            i <= tokens.len(),
            s@ == head + tailwind_entries(tokens@.take(i as int)),
        decreases tokens.len() - i,
    {
        s.append("          \"");
        push_decimal(&mut s, tokens[i].0 as u64);
        s.append("\": \"");
        s.append(tokens[i].1.as_str());
        s.append("\",\n");
        assert(tokens@.take(i + 1).drop_last() =~= tokens@.take(i as int));
        assert(s@ =~= head + tailwind_entries(tokens@.take(i + 1)));
        i = i + 1;
    }
    assert(tokens@.take(tokens.len() as int) =~= tokens@);
    s.append("        },\n      },\n    },\n  },\n};\n");
    assert(s@ =~= spec_tailwind_config(name@, tokens@));
    s
}

/// The custom property lines of the CSS file, one per token.
pub open spec fn css_entries(name: Seq<char>, tokens: Seq<Token>) -> Seq<char>
    decreases tokens.len(),
{
    if tokens.len() == 0 {
        seq![]
    } else {
        css_entries(name, tokens.drop_last()) + "  --"@ + name + "-"@ + decimal(
            tokens.last().0 as nat,
        ) + ": "@ + tokens.last().1@ + ";\n"@
    }
}

/// The text of `colors.css`: a `:root` block with one custom property
/// `--<name>-<step>` per token (the name is not sanitized).
pub open spec fn spec_css_variables(name: Seq<char>, tokens: Seq<Token>) -> Seq<char> {
    "/* Generated by chromix. */\n:root {\n"@ + css_entries(name, tokens) + "}\n"@
}

/// The text of `colors.css` for a scale named `name`.
pub fn css_variables(name: &str, tokens: &Vec<Token>) -> (s: String)
    ensures
        s@ == spec_css_variables(name@, tokens@),
{
    let mut s = String::from_str("/* Generated by chromix. */\n:root {\n");
    let ghost head = s@;
    let mut i: usize = 0;
    assert(tokens@.take(0) =~= Seq::<Token>::empty());
    assert(s@ =~= head + css_entries(name@, tokens@.take(0)));
    while i < tokens.len()
        invariant
            i <= tokens.len(),
            s@ == head + css_entries(name@, tokens@.take(i as int)),
        decreases tokens.len() - i,
    {
        s.append("  --");
        s.append(name);
        s.append("-");
        push_decimal(&mut s, tokens[i].0 as u64);
        s.append(": ");
        s.append(tokens[i].1.as_str());
        s.append(";\n");
        assert(tokens@.take(i + 1).drop_last() =~= tokens@.take(i as int));
        assert(s@ =~= head + css_entries(name@, tokens@.take(i + 1)));
        i = i + 1;
    }
    assert(tokens@.take(tokens.len() as int) =~= tokens@);
    s.append("}\n");
    assert(s@ =~= spec_css_variables(name@, tokens@));
    s
}

/// The pretty-printed JSON text that serde_json gives for the object
/// `{ name: { keys[i]: hexes[i], ... } }` (see `json_pretty`).
pub uninterp spec fn spec_json_pretty(name: Seq<char>, keys: Seq<Seq<char>>, hexes: Seq<Seq<char>>) -> Seq<char>;

/// Pretty-printed JSON of one object keyed `name` whose value maps each
/// `keys[i]` to the string `hexes[i]`.
///
/// Trusted: builds a `serde_json::Map` (BTreeMap-backed without the
/// `preserve_order` feature, so keys come out in lexicographic order; a
/// repeated key keeps its last value) and calls
/// `serde_json::to_string_pretty`, whose documented errors (a failing
/// `Serialize` impl, non-string map keys) cannot arise for string keys and
/// string values. The contract claims only that the text is a function of the
/// three arguments; its layout is left to serde_json and not stated.
#[verifier::external_body]
fn json_pretty(name: &str, keys: &Vec<String>, hexes: &Vec<String>) -> (s: String)
    requires
        keys.len() == hexes.len(),
    ensures
        s@ == spec_json_pretty(name@, texts(keys@), texts(hexes@)),
{
    let inner: serde_json::Map<String, serde_json::Value> =
        keys.iter().cloned().zip(hexes.iter().cloned().map(serde_json::Value::String)).collect();
    let mut outer = serde_json::Map::new();
    outer.insert(name.to_string(), serde_json::Value::Object(inner));
    serde_json::to_string_pretty(&outer).unwrap()
}

/// The text of `colors.json` from the pretty-printed JSON: a trailing newline
/// is added.
pub fn json_file_text(pretty: String) -> (s: String)
    ensures
        s@ == pretty@ + "\n"@,
{
    let mut s = pretty;
    s.append("\n");
    s
}

/// The text of `colors.json` for a scale named `name`: pretty-printed
/// `{ "<name>": { "<step>": "<value>", ... } }`, then a newline. Each entry
/// is a step and its value (the hex color).
pub fn json_tokens(name: &str, entries: &Vec<Token>) -> (s: String)
    ensures
        s@ == spec_json_pretty(
            name@,
            entries@.map_values(|e: Token| decimal(e.0 as nat)),
            entries@.map_values(|e: Token| e.1@),
        ) + "\n"@,
{
    let mut keys: Vec<String> = Vec::new();
    let mut hexes: Vec<String> = Vec::new();
    let mut i: usize = 0;
    while i < entries.len()
        invariant
            i <= entries.len(),
            keys.len() == i,
            hexes.len() == i,
            texts(keys@) == entries@.take(i as int).map_values(|e: Token| decimal(e.0 as nat)),
            texts(hexes@) == entries@.take(i as int).map_values(|e: Token| e.1@),
        decreases entries.len() - i,
    {
        let mut k = String::new();
        push_decimal(&mut k, entries[i].0 as u64);
        let ghost old_keys = texts(keys@);
        let ghost old_hexes = texts(hexes@);
        let ghost kv = k@;
        let h = entries[i].1.clone();
        let ghost hv = h@;
        keys.push(k);
        hexes.push(h);
        assert(texts(keys@) =~= old_keys.push(kv));
        assert(texts(hexes@) =~= old_hexes.push(hv));
        assert(entries@.take(i + 1) =~= entries@.take(i as int).push(entries@[i as int]));
        assert(texts(keys@) =~= entries@.take(i + 1).map_values(|e: Token| decimal(e.0 as nat)));
        assert(texts(hexes@) =~= entries@.take(i + 1).map_values(|e: Token| e.1@));
        i = i + 1;
    }
    assert(entries@.take(entries.len() as int) =~= entries@);
    let pretty = json_pretty(name, &keys, &hexes);
    json_file_text(pretty)
}

/// A scale with no tokens gives an empty `:root` block under the header.
pub proof fn lemma_css_variables_empty(name: Seq<char>)
    ensures
        spec_css_variables(name, seq![]) == "/* Generated by chromix. */\n:root {\n}\n"@,
{
    reveal_strlit("/* Generated by chromix. */\n:root {\n}\n");
    reveal_strlit("/* Generated by chromix. */\n:root {\n");
    reveal_strlit("}\n");
    assert(spec_css_variables(name, seq![]) =~= "/* Generated by chromix. */\n:root {\n}\n"@);
}

/// One more token adds one line before the closing `}`: the custom property
/// `--<name>-<step>` with the token's value, verbatim.
pub proof fn lemma_css_variables_push(name: Seq<char>, tokens: Seq<Token>, t: Token)
    ensures
        ({
            let before = spec_css_variables(name, tokens);
            spec_css_variables(name, tokens.push(t)) == before.take(before.len() - 2) + "  --"@
                + name + "-"@ + decimal(t.0 as nat) + ": "@ + t.1@ + ";\n}\n"@
        }),
{
    reveal_strlit("}\n");
    reveal_strlit(";\n}\n");
    reveal_strlit(";\n");
    let before = spec_css_variables(name, tokens);
    assert(tokens.push(t).drop_last() =~= tokens);
    let head = "/* Generated by chromix. */\n:root {\n"@ + css_entries(name, tokens);
    assert(before =~= head + "}\n"@);
    assert(before.take(before.len() - 2) =~= head);
    assert(spec_css_variables(name, tokens.push(t)) =~= before.take(before.len() - 2) + "  --"@
        + name + "-"@ + decimal(t.0 as nat) + ": "@ + t.1@ + ";\n}\n"@);
}

/// The closing lines of the Tailwind snippet.
pub open spec fn tailwind_tail() -> Seq<char> {
    "        },\n      },\n    },\n  },\n};\n"@
}

/// A scale with no tokens gives the snippet with an empty color object.
pub proof fn lemma_tailwind_config_empty(name: Seq<char>)
    ensures
        spec_tailwind_config(name, seq![]) == "/** Generated by chromix. Drop into your tailwind.config.js. */\nmodule.exports = {\n  theme: {\n    extend: {\n      colors: {\n        "@
            + spec_js_key(name) + ": {\n        },\n      },\n    },\n  },\n};\n"@,
{
    reveal_strlit(": {\n");
    reveal_strlit("        },\n      },\n    },\n  },\n};\n");
    reveal_strlit(": {\n        },\n      },\n    },\n  },\n};\n");
    assert(spec_tailwind_config(name, seq![]) =~= "/** Generated by chromix. Drop into your tailwind.config.js. */\nmodule.exports = {\n  theme: {\n    extend: {\n      colors: {\n        "@
        + spec_js_key(name) + ": {\n        },\n      },\n    },\n  },\n};\n"@);
}

/// One more token adds one entry before the closing lines: the step in
/// quotes as the key and the token's value, verbatim, in quotes.
pub proof fn lemma_tailwind_config_push(name: Seq<char>, tokens: Seq<Token>, t: Token)
    ensures
        ({
            let before = spec_tailwind_config(name, tokens);
            spec_tailwind_config(name, tokens.push(t)) == before.take(
                before.len() - tailwind_tail().len(),
            ) + "          \""@ + decimal(t.0 as nat) + "\": \""@ + t.1@ + "\",\n"@ + tailwind_tail()
        }),
{
    let before = spec_tailwind_config(name, tokens);
    assert(tokens.push(t).drop_last() =~= tokens);
    let head = "/** Generated by chromix. Drop into your tailwind.config.js. */\nmodule.exports = {\n  theme: {\n    extend: {\n      colors: {\n        "@
        + spec_js_key(name) + ": {\n"@ + tailwind_entries(tokens);
    assert(before =~= head + tailwind_tail());
    assert(before.take(before.len() - tailwind_tail().len()) =~= head);
    assert(spec_tailwind_config(name, tokens.push(t)) =~= head + "          \""@ + decimal(t.0 as nat)
        + "\": \""@ + t.1@ + "\",\n"@ + tailwind_tail());
}

/// An identifier name is written as it is; any other name is put in double
/// quotes, unchanged inside them.
pub proof fn lemma_js_key_quotes(name: Seq<char>)
    ensures
        is_js_identifier(name) ==> spec_js_key(name) == name,
        !is_js_identifier(name) ==> spec_js_key(name) == seq!['"'] + name + seq!['"'],
        name.len() == 0 || ('0' <= name[0] && name[0] <= '9') ==> !is_js_identifier(name),
{
    reveal_strlit("\"");
    assert("\""@ =~= seq!['"']);
}

} // verus!
