use vstd::prelude::*;
use crate::ramp::{default_steps, spec_default_steps};

verus! {

/// The command line: an optional subcommand (none shows the splash screen).
pub struct Cli {
    pub command: Option<Commands>,
}

/// The subcommands.
pub enum Commands {
    /// Convert a hex color to OKLCH.
    Convert(ConvertArgs),
    /// Generate an 11-step OKLCH color scale.
    Scale(ScaleArgs),
    /// Export color tokens to files.
    Export(ExportArgs),
}

/// The base color, as hex (`#rgb`, `#rrggbb`, `#rrggbbaa`; `#` optional).
pub struct ColorArg {
    pub color: String,
}

/// Arguments of `convert`.
pub struct ConvertArgs {
    pub color_arg: ColorArg,
    /// Copy the OKLCH value to the system clipboard.
    pub copy: bool,
}

/// Arguments of `scale`.
pub struct ScaleArgs {
    pub color_arg: ColorArg,
    /// Scale steps (default: the Tailwind scale).
    pub steps: Option<Vec<u16>>,
    /// Name of the color scale.
    pub name: String,
}

/// Arguments of `export`.
pub struct ExportArgs {
    pub color_arg: ColorArg,
    /// Scale steps (default: the Tailwind scale).
    pub steps: Option<Vec<u16>>,
    /// Name of the color scale.
    pub name: String,
    /// Write `colors.json`.
    pub json: bool,
    /// Write `tailwind.colors.js`.
    pub tailwind: bool,
    /// Write `colors.css`.
    pub css: bool,
    /// Output directory.
    pub out: String,
}

/// The steps a scale is built over: the given ones when there are some,
/// else the default steps.
pub open spec fn spec_scale_steps(steps: Option<Seq<u16>>) -> Seq<u16> {
    match steps {
        Some(s) => if s.len() > 0 {
            s
        } else {
            spec_default_steps()
        },
        None => spec_default_steps(),
    }
}

/// The steps a scale is built over: `--steps` when given and not empty,
/// else the default Tailwind steps.
pub fn scale_steps(steps: &Option<Vec<u16>>) -> (v: Vec<u16>)
    ensures
        v@ == spec_scale_steps(
            match steps {
                Some(s) => Some(s@),
                None => None,
            },
        ),
{
    match steps {
        Some(s) => if s.len() > 0 {
            s.clone()
        } else {
            default_steps()
        },
        None => default_steps(),
    }
}

/// A scale always has steps: an empty `--steps` falls back to the defaults.
pub proof fn lemma_scale_steps_nonempty(steps: Option<Seq<u16>>)
    ensures
        spec_scale_steps(steps).len() > 0,
        steps is None ==> spec_scale_steps(steps) == spec_default_steps(),
{
}

impl ExportArgs {
    /// Whether at least one export format was asked for.
    pub fn wants_any_format(&self) -> (b: bool)
        ensures
            b == (self.json || self.tailwind || self.css),
    {
        self.json || self.tailwind || self.css
    }
}

} // verus!
