//! The decisions of a command-line run: where the inputs come from, what
//! is printed for each input, and whether the run as a whole succeeded.

use vstd::prelude::*;
use crate::outcome::Step;
use crate::process::{process_item_step, process_ok};
use crate::render::opt_view;
use crate::text::str_eq;
use crate::tz::{tz_wf, TzConfig};
use crate::unit::TimestampUnit;

verus! {

/// Whether the inputs ask for reading standard input: there are none, or
/// the only one is `-`.
pub fn is_stdin_requested(inputs: &[String]) -> (r: bool)
    ensures
        r == (inputs@.len() == 0 || (inputs@.len() == 1 && inputs@[0]@ == "-"@)),
{
    inputs.len() == 0 || (inputs.len() == 1 && str_eq(inputs[0].as_str(), "-"))
}

/// What a run prints for one input.
pub enum ItemReport {
    /// Nothing: the input is blank or converts to empty text.
    Quiet,
    /// The converted text, on standard output.
    Print(String),
    /// The reason the input was rejected, on standard error; the run fails.
    Fail(String),
    /// The conversion aborts the program.
    Abort,
}

/// The report for the outcome of converting one input.
pub open spec fn report_of(s: Step<String>) -> ItemReport {
    match s {
        Step::Value(v) => if v@.len() == 0 {
            ItemReport::Quiet
        } else {
            ItemReport::Print(v)
        },
        Step::Error(e) => ItemReport::Fail(e),
        Step::Panic => ItemReport::Abort,
    }
}

/// `r` is the report for one of the possible outcomes of converting `item`.
#[verifier::opaque]
pub open spec fn report_ok(
    r: ItemReport,
    item: Seq<char>,
    reverse: bool,
    unit: TimestampUnit,
    tz: crate::tz::TzView,
    format: Option<Seq<char>>,
) -> bool {
    exists|s: Step<String>| process_ok(s, item, reverse, unit, tz, format) && r == #[trigger] report_of(s)
}

/// Converts one input and says what to print for it.
pub fn report_item(
    item: &str,
    reverse: bool,
    unit: TimestampUnit,
    tz: &TzConfig,
    format: Option<&str>,
) -> (r: ItemReport)
    requires
        tz_wf(tz@),
    ensures
        report_ok(r, item@, reverse, unit, tz@, opt_view(format)),
{
    let s = process_item_step(item, reverse, unit, tz, format);
    let ghost g = s;
    proof {
        reveal(report_ok);
    }
    match s {
        Step::Value(v) => {
            if v.unicode_len() == 0 {
                assert(report_of(g) == ItemReport::Quiet);
                ItemReport::Quiet
            } else {
                assert(report_of(g) == ItemReport::Print(v));
                ItemReport::Print(v)
            }
        },
        Step::Error(e) => {
            assert(report_of(g) == ItemReport::Fail(e));
            ItemReport::Fail(e)
        },
        Step::Panic => {
            assert(report_of(g) == ItemReport::Abort);
            ItemReport::Abort
        },
    }
}

/// Whether a report leaves the run successful.
pub open spec fn report_succeeds(r: ItemReport) -> bool {
    !(r is Fail)
}

/// Converts the inputs in order, stopping after the first one whose
/// conversion aborts. Gives the reports and whether every input converted.
pub fn process_inputs(
    inputs: &[String],
    reverse: bool,
    unit: TimestampUnit,
    tz: &TzConfig,
    format: Option<&str>,
) -> (r: (Vec<ItemReport>, bool))
    requires
        tz_wf(tz@),
    ensures
        r.0@.len() <= inputs@.len(),
        forall|i: int|
            0 <= i < r.0@.len() ==> report_ok(#[trigger] r.0@[i], inputs@[i]@, reverse, unit, tz@, opt_view(format)),
        forall|i: int| 0 <= i < r.0@.len() - 1 ==> !(#[trigger] r.0@[i] is Abort),
        r.0@.len() < inputs@.len() ==> r.0@.len() > 0 && r.0@.last() is Abort,
        r.1 == forall|i: int| 0 <= i < r.0@.len() ==> report_succeeds(#[trigger] r.0@[i]),
{
    let mut reports: Vec<ItemReport> = Vec::new();
    let mut success = true;
    let mut i: usize = 0;
    while i < inputs.len()
        invariant
            tz_wf(tz@),
            i <= inputs@.len(),
            reports@.len() == i,
            forall|k: int|
                0 <= k < i ==> report_ok(#[trigger] reports@[k], inputs@[k]@, reverse, unit, tz@, opt_view(format)),
            forall|k: int| 0 <= k < i ==> !(#[trigger] reports@[k] is Abort),
            success == forall|k: int| 0 <= k < i ==> report_succeeds(#[trigger] reports@[k]),
        decreases inputs@.len() - i,
    {
        let rep = report_item(inputs[i].as_str(), reverse, unit, tz, format);
        let ok = !matches!(rep, ItemReport::Fail(_));
        let stop = matches!(rep, ItemReport::Abort);
        let ghost g = rep;
        let ghost before = reports@;
        reports.push(rep);
        proof {
            assert(reports@ =~= before.push(g));
            assert(reports@[i as int] == g);
            assert forall|k: int| 0 <= k < i implies #[trigger] reports@[k] == before[k] by {}
            if success && ok {
                assert forall|k: int| 0 <= k < i + 1 implies report_succeeds(#[trigger] reports@[k]) by {
                    if k < i {
                        assert(report_succeeds(before[k]));
                    }
                }
            }
            if !ok {
                assert(!report_succeeds(reports@[i as int]));
            }
            if !success {
                let w = choose|k: int| 0 <= k < i && !report_succeeds(#[trigger] before[k]);
                assert(!report_succeeds(reports@[w]));
            }
        }
        success = success && ok;
        i = i + 1;
        if stop {
            assert(reports@.len() > 0 && reports@.last() is Abort);
            return (reports, success);
        }
    }
    (reports, success)
}

} // verus!
