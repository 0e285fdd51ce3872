//! The configuration the host hands the model at startup.

use vstd::prelude::*;
use crate::preset::{preset_of, Preset};
use crate::rule::{parse_rule, Rule};

verus! {

/// The raw command-line surface: an optional rule string, an optional preset
/// name and an optional tick interval in milliseconds.
pub struct Cli {
    pub rulestring: Option<String>,
    pub preset_string: Option<String>,
    pub tickrate: Option<u16>,
}

/// The resolved configuration: the parsed rule, the chosen preset and the
/// tick interval.
pub struct Config {
    pub rule: Rule,
    pub preset: Preset,
    pub tickrate: u16,
}

impl Config {
    /// Resolves the textual configuration: the rule string is parsed (falling
    /// back to the default rule when malformed) and the preset name selected
    /// (falling back to the empty pattern when unrecognized).
    pub fn build(preset_string: &str, rulestring: &str, tickrate: u16) -> (c: Config)
        ensures
            (c.rule.birth_list@, c.rule.survival_list@) == parse_rule(rulestring@),
            c.preset == preset_of(preset_string@),
            c.tickrate == tickrate,
    {
        Config { preset: Preset::from(preset_string), rule: Rule::from(rulestring), tickrate }
    }
}

} // verus!
