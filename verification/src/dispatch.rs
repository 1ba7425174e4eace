//! The Mode Dispatcher's decisions. The dispatcher itself reads streams,
//! files and the environment; the two choices it makes — which source to
//! validate, and whether a verdict stops the payload — are stated here.

use vstd::prelude::*;

use crate::rules::Verdict;
use crate::text::str_eq;

verus! {

/// Where the payload comes from.
#[derive(Clone, Copy, PartialEq, Eq, Structural, Debug)]
pub enum Mode {
    Live,
    Batch,
}

/// Reads the live-mode configuration value: live validation runs only when
/// the flag is present and set to exactly "true" or "True"; anything else,
/// or no flag at all, selects batch validation.
pub fn mode_of(flag: Option<&str>) -> (r: Mode)
    ensures
        r == Mode::Live <==> (flag matches Some(v) && (v@ == "true"@ || v@ == "True"@)),
{
    match flag {
        Some(v) => {
            if str_eq(v, "true") || str_eq(v, "True") {
                Mode::Live
            } else {
                Mode::Batch
            }
        },
        None => Mode::Batch,
    }
}

/// A verdict with findings is a hard stop — the payload is rejected —
/// unless the dispatcher runs in a dry-run, report-only configuration.
pub fn should_reject(verdict: &Verdict, dry_run: bool) -> (r: bool)
    ensures
        r <==> (!dry_run && verdict.findings@.len() != 0),
{
    !dry_run && verdict.findings.len() > 0
}

} // verus!
