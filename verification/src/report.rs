//! Per-source result aggregation: successes become result entries and
//! failures become diagnostics, each kept strictly in processing order, and
//! one failed source never disturbs the entries of the others.

use vstd::prelude::*;
use vstd::string::StringExecFns;
use crate::format::{OutputMode, mode_spec, select_mode, format_spec, format_value};

verus! {

/// One successfully processed source: its identifier and formatted checksum.
pub struct ResultEntry {
    pub file: String,
    pub crc64: String,
}

impl View for ResultEntry {
    type V = (Seq<char>, Seq<char>);

    open spec fn view(&self) -> (Seq<char>, Seq<char>) {
        (self.file@, self.crc64@)
    }
}

/// What processing one source produced: a finalized checksum value, or a
/// diagnostic message for the error channel.
pub enum SourceOutcome {
    Success { source: String, value: u64 },
    Failure { message: String },
}

/// The entries owed for a run, in processing order: the identifier and the
/// rendered checksum of each success; nothing for a failure.
pub open spec fn entries_spec(outs: Seq<SourceOutcome>, mode: OutputMode) -> Seq<
    (Seq<char>, Seq<char>),
>
    decreases outs.len(),
{
    if outs.len() == 0 {
        Seq::empty()
    } else {
        let rest = entries_spec(outs.drop_last(), mode);
        match outs.last() {
            SourceOutcome::Success { source, value } => rest.push(
                (source@, format_spec(value, mode)),
            ),
            SourceOutcome::Failure { .. } => rest,
        }
    }
}

/// The diagnostics owed for a run, in processing order: the message of each
/// failure; nothing for a success.
pub open spec fn diagnostics_spec(outs: Seq<SourceOutcome>) -> Seq<Seq<char>>
    decreases outs.len(),
{
    if outs.len() == 0 {
        Seq::empty()
    } else {
        let rest = diagnostics_spec(outs.drop_last());
        match outs.last() {
            SourceOutcome::Success { .. } => rest,
            SourceOutcome::Failure { message } => rest.push(message@),
        }
    }
}

/// A finished run: one entry per successful source and one diagnostic per
/// failed one, both in processing order.
pub struct RunReport {
    pub entries: Vec<ResultEntry>,
    pub diagnostics: Vec<String>,
}

pub open spec fn entry_views(es: Seq<ResultEntry>) -> Seq<(Seq<char>, Seq<char>)> {
    es.map_values(|e: ResultEntry| e@)
}

pub open spec fn string_views(ss: Seq<String>) -> Seq<Seq<char>> {
    ss.map_values(|s: String| s@)
}

/// Aggregates per-source outcomes under the mode the two flags select.
///
/// Partial-failure policy: a failure contributes its diagnostic and is
/// skipped; every success still contributes its entry, and both lists keep
/// the order in which the sources were processed.
pub fn aggregate_outcomes(outcomes: &Vec<SourceOutcome>, uppercase: bool, hex: bool) -> (r:
    RunReport)
    ensures
        entry_views(r.entries@) == entries_spec(outcomes@, mode_spec(uppercase, hex)),
        string_views(r.diagnostics@) == diagnostics_spec(outcomes@),
{
    let mode = select_mode(uppercase, hex);
    let mut entries: Vec<ResultEntry> = Vec::new();
    let mut diagnostics: Vec<String> = Vec::new();
    let mut i: usize = 0;
    while i < outcomes.len()
        invariant
            i <= outcomes@.len(),
            mode == mode_spec(uppercase, hex),
            entry_views(entries@) == entries_spec(outcomes@.take(i as int), mode),
            string_views(diagnostics@) == diagnostics_spec(outcomes@.take(i as int)),
        decreases outcomes@.len() - i,
    {
        proof {
            assert(outcomes@.take(i + 1).drop_last() =~= outcomes@.take(i as int));
            assert(outcomes@.take(i + 1).last() == outcomes@[i as int]);
        }
        match &outcomes[i] {
            SourceOutcome::Success { source, value } => {
                let entry = ResultEntry { file: source.clone(), crc64: format_value(*value, mode) };
                entries.push(entry);
                proof {
                    assert(entry_views(entries@) =~= entries_spec(
                        outcomes@.take(i + 1),
                        mode,
                    ));
                }
            },
            SourceOutcome::Failure { message } => {
                diagnostics.push(message.clone());
                proof {
                    assert(entry_views(entries@) =~= entries_spec(
                        outcomes@.take(i + 1),
                        mode,
                    ));
                    assert(string_views(diagnostics@) =~= diagnostics_spec(
                        outcomes@.take(i + 1),
                    ));
                }
            },
        }
        proof {
            assert(string_views(diagnostics@) =~= diagnostics_spec(outcomes@.take(i + 1)));
        }
        i = i + 1;
    }
    proof {
        assert(outcomes@.take(i as int) =~= outcomes@);
    }
    RunReport { entries, diagnostics }
}

/// The line rendered for one entry: the formatted checksum, two literal
/// spaces, then the source identifier.
pub open spec fn line_spec(e: (Seq<char>, Seq<char>)) -> Seq<char> {
    e.1 + "  "@ + e.0
}

/// Renders one entry as a conventional checksum-utility line.
pub fn render_line(entry: &ResultEntry) -> (r: String)
    ensures
        r@ == line_spec(entry@),
{
    let mut out = String::new();
    out.append(entry.crc64.as_str());
    out.append("  ");
    out.append(entry.file.as_str());
    proof {
        assert(out@ =~= line_spec(entry@));
    }
    out
}

/// Renders every entry as its line, in order.
pub fn render_lines(entries: &Vec<ResultEntry>) -> (r: Vec<String>)
    ensures
        r@.len() == entries@.len(),
        forall|i: int| 0 <= i < entries@.len() ==> r@[i]@ == line_spec(entries@[i]@),
{
    let mut out: Vec<String> = Vec::new();
    let mut i: usize = 0;
    while i < entries.len()
        invariant
            i <= entries@.len(),
            out@.len() == i,
            forall|j: int| 0 <= j < i ==> out@[j]@ == line_spec(entries@[j]@),
        decreases entries@.len() - i,
    {
        out.push(render_line(&entries[i]));
        i = i + 1;
    }
    out
}

} // verus!
