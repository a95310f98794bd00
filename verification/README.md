# chromix

An OKLCH color tool for the terminal: convert a hex color to OKLCH, print a
Tailwind-style tonal scale, and export it as design tokens (JSON, Tailwind,
CSS).

## Layout

- `src/` — the verified library (Verus). Every function carries a contract
  that Verus proves, except the trusted wrappers whose contracts are taken on
  trust: `text::push_char` (std `String::push`), `tokens::json_pretty`
  (serde_json's map and `to_string_pretty`), and `render::paint` and
  `render::paint_bold` (owo-colors truecolor and bold). The modules:
  - `color` — `Srgb`, hex parsing (`#` optional, shorthand, ignored alpha,
    digit errors before length errors) and formatting, with the round-trip
    and related laws; `is_hex_value`.
  - `text` — white space, words, greedy word wrapping, with the laws that
    wrapping keeps every word in order, fits the width, and is greedy.
  - `ramp` — the default steps and the tuned lightness table, with the law
    that the default scale darkens step by step.
  - `gradient` — gradient variants, their lightness settings, and the
    Tailwind gradient classes.
  - `wcag` — labels and the usage advice drawn from contrast levels.
  - `prompt` — the agent prompts and the prompt box rule widths.
  - `render` — the terminal lines of a converted color, of the input header,
    of a color scale and of a prompt box.
  - `tokens` — the text of `colors.json` (through serde_json), `tailwind.colors.js`
    and `colors.css`.
  - `splash` — splash palettes and the highlighting of usage examples.
  - `cli` — the command-line values and the choice of scale steps.
- `app/` — the `chromix` command: argument parsing (clap), the floating-point
  color math (OKLCH conversion, gamut clamping, ramp and gradient sampling,
  contrast ratios), printing and animation, clipboard and file writing.
- `tests/` — tests of the library.
