//! What a measurement reports.
use vstd::prelude::*;

use crate::harness::collect::{ScanModel, ScanOutput, ScanStats};
use crate::harness::probe;
use crate::harness::probe::{ProbeSummary, SummaryModel};
use crate::harness::scan::{Exclusion, ExclusionModel};
use crate::paths;
use crate::text;

verus! {

/// Whole milliseconds in a time span of seconds and nanoseconds.
pub fn millis(seconds: u64, nanoseconds: u32) -> (r: u128)
    ensures
        r == seconds * 1000 + nanoseconds as int / 1_000_000,
{
    (seconds as u128) * 1000 + (nanoseconds as u128) / 1_000_000
}

/// How long the steps of a measurement took, in milliseconds.
#[derive(Debug, Clone, Copy, PartialEq, Eq, Structural)]
pub struct TimingSummary {
    pub scan_ms: u128,
    pub ruleset_build_ms: Option<u128>,
    pub restrict_self_ms: Option<u128>,
    pub total_ms: u128,
}

/// The name of a version of the kernel interface.
pub open spec fn abi_name(abi: i32) -> Seq<char> {
    if abi <= 0 {
        "Unsupported"@
    } else if abi >= 9 {
        "V9"@
    } else {
        "V"@ + text::decimal(abi as nat)
    }
}

/// Names a version of the kernel interface.
pub fn abi_text(abi: i32) -> (r: String)
    ensures
        r@ == abi_name(abi),
{
    if abi <= 0 {
        "Unsupported".to_owned()
    } else if abi >= 9 {
        "V9".to_owned()
    } else {
        text::cat2("V", text::decimal_text(abi as u128).as_str())
    }
}

/// A count behind its label.
pub open spec fn counted(label: Seq<char>, n: nat) -> Seq<char> {
    label + text::decimal(n)
}

/// A time behind its label.
pub open spec fn timed(label: Seq<char>, ms: u128) -> Seq<char> {
    label + text::decimal(ms as nat) + " ms"@
}

/// The optional time behind its label.
pub open spec fn timed_option(label: Seq<char>, ms: Option<u128>) -> Seq<Seq<char>> {
    match ms {
        Some(ms) => seq![timed(label, ms)],
        None => Seq::empty(),
    }
}

/// The counts of a scan.
pub open spec fn count_lines(stats: ScanStats) -> Seq<Seq<char>> {
    seq![
        counted("Executable dirs requested: "@, stats.exec_dirs_requested as nat),
        counted("Executable dirs scanned: "@, stats.exec_dirs_scanned as nat),
        counted("Entries seen: "@, stats.exec_entries_seen as nat),
        counted("Executable candidates: "@, stats.executable_candidates as nat),
        counted("Allowed executable files: "@, stats.allowed_executable_files as nat),
        counted("Excluded by path: "@, stats.excluded_by_path as nat),
        counted("Excluded by inode: "@, stats.excluded_by_inode as nat),
        counted("Duplicate inode skips: "@, stats.duplicate_inode_skips as nat),
        counted("Support dirs allowed: "@, stats.support_dirs_allowed as nat),
        counted("Support files allowed: "@, stats.support_files_allowed as nat),
        counted("Total Landlock rules: "@, stats.total_landlock_rules as nat),
    ]
}

/// The times of a measurement.
pub open spec fn timing_lines(timings: TimingSummary) -> Seq<Seq<char>> {
    seq![timed("Scan time: "@, timings.scan_ms)] + timed_option(
        "Ruleset build time: "@,
        timings.ruleset_build_ms,
    ) + timed_option("restrict_self time: "@, timings.restrict_self_ms) + seq![
        timed("Total time: "@, timings.total_ms),
    ]
}

/// One excluded binary.
pub open spec fn exclusion_line(entry: ExclusionModel) -> Seq<char> {
    "  "@ + paths::shown(entry.requested) + " -> "@ + paths::shown(entry.canonical) + " ["@
        + text::decimal(entry.id.dev as nat) + ":"@ + text::decimal(entry.id.ino as nat) + "]"@
}

/// The excluded binaries, if there are any.
pub open spec fn exclusion_lines(excluded: Seq<ExclusionModel>) -> Seq<Seq<char>> {
    if excluded.len() == 0 {
        Seq::empty()
    } else {
        seq!["Excluded binaries:"@] + excluded.map_values(
            |entry: ExclusionModel| exclusion_line(entry),
        )
    }
}

/// How a truth value is written.
pub open spec fn truth(value: bool) -> Seq<char> {
    if value {
        "true"@
    } else {
        "false"@
    }
}

/// Writes a truth value.
pub fn truth_text(value: bool) -> (r: &'static str)
    ensures
        r@ == truth(value),
{
    if value {
        "true"
    } else {
        "false"
    }
}

/// One probe.
pub open spec fn probe_line(probe: SummaryModel) -> Seq<char> {
    "  "@ + probe.path + " expected "@ + probe::expectation_text(probe.expected) + ", outcome "@
        + probe::outcome_text(probe.outcome) + ", matched="@ + truth(probe.matched)
}

/// The probes, if there are any.
pub open spec fn probe_lines(probes: Seq<SummaryModel>) -> Seq<Seq<char>> {
    if probes.len() == 0 {
        Seq::empty()
    } else {
        seq!["Exec probes:"@] + probes.map_values(|probe: SummaryModel| probe_line(probe))
    }
}

/// A measurement in words.
pub open spec fn human_lines(
    abi: i32,
    scan: ScanModel,
    timings: TimingSummary,
    probes: Seq<SummaryModel>,
    applied: bool,
) -> Seq<Seq<char>> {
    seq!["Landlock ABI: "@ + abi_name(abi)] + count_lines(scan.stats) + timing_lines(timings)
        + exclusion_lines(scan.excluded) + (if applied {
        Seq::empty()
    } else {
        seq!["Landlock was not applied. Re-run with --apply to measure restrict_self."@]
    }) + probe_lines(probes)
}

fn push_count(lines: &mut Vec<String>, label: &str, n: usize)
    ensures
        text::texts(final(lines)@) == text::texts(old(lines)@).push(counted(label@, n as nat)),
{
    text::push_text(lines, text::cat2(label, text::decimal_text(n as u128).as_str()));
}

fn push_time(lines: &mut Vec<String>, label: &str, ms: u128)
    ensures
        text::texts(final(lines)@) == text::texts(old(lines)@).push(timed(label@, ms)),
{
    text::push_text(lines, text::cat3(label, text::decimal_text(ms).as_str(), " ms"));
}

fn push_counts(lines: &mut Vec<String>, stats: &ScanStats)
    ensures
        text::texts(final(lines)@) == text::texts(old(lines)@) + count_lines(*stats),
{
    push_count(lines, "Executable dirs requested: ", stats.exec_dirs_requested);
    push_count(lines, "Executable dirs scanned: ", stats.exec_dirs_scanned);
    push_count(lines, "Entries seen: ", stats.exec_entries_seen);
    push_count(lines, "Executable candidates: ", stats.executable_candidates);
    push_count(lines, "Allowed executable files: ", stats.allowed_executable_files);
    push_count(lines, "Excluded by path: ", stats.excluded_by_path);
    push_count(lines, "Excluded by inode: ", stats.excluded_by_inode);
    push_count(lines, "Duplicate inode skips: ", stats.duplicate_inode_skips);
    push_count(lines, "Support dirs allowed: ", stats.support_dirs_allowed);
    push_count(lines, "Support files allowed: ", stats.support_files_allowed);
    push_count(lines, "Total Landlock rules: ", stats.total_landlock_rules);
    assert(text::texts(lines@) =~= text::texts(old(lines)@) + count_lines(*stats));
}

fn push_timings(lines: &mut Vec<String>, timings: &TimingSummary)
    ensures
        text::texts(final(lines)@) == text::texts(old(lines)@) + timing_lines(*timings),
{
    push_time(lines, "Scan time: ", timings.scan_ms);
    if let Some(build_ms) = timings.ruleset_build_ms {
        push_time(lines, "Ruleset build time: ", build_ms);
    }
    if let Some(restrict_ms) = timings.restrict_self_ms {
        push_time(lines, "restrict_self time: ", restrict_ms);
    }
    push_time(lines, "Total time: ", timings.total_ms);
    assert(text::texts(lines@) =~= text::texts(old(lines)@) + timing_lines(*timings));
}

fn exclusion_words(entry: &Exclusion) -> (r: String)
    ensures
        r@ == exclusion_line(entry@),
{
    let beginning = text::cat4(
        "  ",
        entry.requested.display().as_str(),
        " -> ",
        entry.canonical.display().as_str(),
    );
    text::cat6(
        beginning.as_str(),
        " [",
        text::decimal_text(entry.id.dev as u128).as_str(),
        ":",
        text::decimal_text(entry.id.ino as u128).as_str(),
        "]",
    )
}

fn push_exclusions(lines: &mut Vec<String>, excluded: &Vec<Exclusion>)
    ensures
        text::texts(final(lines)@) == text::texts(old(lines)@) + exclusion_lines(
            text::views(excluded@),
        ),
{
    if excluded.len() == 0 {
        assert(text::texts(old(lines)@) + Seq::<Seq<char>>::empty() =~= text::texts(old(lines)@));
        return ;
    }
    text::push_text(lines, "Excluded binaries:".to_owned());
    let ghost before = text::texts(lines@);
    let ghost all = text::views(excluded@).map_values(|entry: ExclusionModel| exclusion_line(entry));
    assert(before + all.take(0) =~= before);
    for i in 0..excluded.len()
        invariant
            all == text::views(excluded@).map_values(
                |entry: ExclusionModel| exclusion_line(entry),
            ),
            text::texts(lines@) == before + all.take(i as int),
    {
        text::push_text(lines, exclusion_words(&excluded[i]));
        assert(all[i as int] == exclusion_line(excluded@[i as int]@));
        assert(all.take(i + 1) =~= all.take(i as int).push(all[i as int]));
    }
    assert(all.take(all.len() as int) =~= all);
    assert(text::texts(lines@) =~= text::texts(old(lines)@) + exclusion_lines(
        text::views(excluded@),
    ));
}

fn probe_words(probe: &ProbeSummary) -> (r: String)
    ensures
        r@ == probe_line(probe@),
{
    text::cat8(
        "  ",
        probe.path.as_str(),
        " expected ",
        probe::expectation_words(probe.expected),
        ", outcome ",
        probe::outcome_words(&probe.outcome).as_str(),
        ", matched=",
        truth_text(probe.matched),
    )
}

fn push_probes(lines: &mut Vec<String>, probes: &Vec<ProbeSummary>)
    ensures
        text::texts(final(lines)@) == text::texts(old(lines)@) + probe_lines(
            text::views(probes@),
        ),
{
    if probes.len() == 0 {
        assert(text::texts(old(lines)@) + Seq::<Seq<char>>::empty() =~= text::texts(old(lines)@));
        return ;
    }
    text::push_text(lines, "Exec probes:".to_owned());
    let ghost before = text::texts(lines@);
    let ghost all = text::views(probes@).map_values(|probe: SummaryModel| probe_line(probe));
    assert(before + all.take(0) =~= before);
    for i in 0..probes.len()
        invariant
            all == text::views(probes@).map_values(|probe: SummaryModel| probe_line(probe)),
            text::texts(lines@) == before + all.take(i as int),
    {
        text::push_text(lines, probe_words(&probes[i]));
        assert(all[i as int] == probe_line(probes@[i as int]@));
        assert(all.take(i + 1) =~= all.take(i as int).push(all[i as int]));
    }
    assert(all.take(all.len() as int) =~= all);
    assert(text::texts(lines@) =~= text::texts(old(lines)@) + probe_lines(text::views(probes@)));
}

/// Reports a measurement in words.
pub fn print_human(
    abi: i32,
    scan: &ScanOutput,
    timings: &TimingSummary,
    probes: &Vec<ProbeSummary>,
    applied: bool,
) -> (r: Vec<String>)
    ensures
        text::texts(r@) == human_lines(abi, scan@, *timings, text::views(probes@), applied),
{
    let mut lines: Vec<String> = Vec::new();
    assert(text::texts(lines@) =~= Seq::empty());
    text::push_text(&mut lines, text::cat2("Landlock ABI: ", abi_text(abi).as_str()));
    assert(text::texts(lines@) =~= seq!["Landlock ABI: "@ + abi_name(abi)]);
    push_counts(&mut lines, &scan.stats);
    push_timings(&mut lines, timings);
    push_exclusions(&mut lines, &scan.excluded);
    let ghost before = text::texts(lines@);
    if !applied {
        text::push_text(
            &mut lines,
            "Landlock was not applied. Re-run with --apply to measure restrict_self.".to_owned(),
        );
    }
    assert(text::texts(lines@) =~= before + (if applied {
        Seq::empty()
    } else {
        seq!["Landlock was not applied. Re-run with --apply to measure restrict_self."@]
    }));
    push_probes(&mut lines, probes);
    lines
}

/// An excluded binary, as data.
#[derive(Debug, PartialEq, Eq)]
pub struct JsonExclusion {
    pub requested: String,
    pub canonical: String,
    pub dev: u64,
    pub ino: u64,
}

/// What such data stands for.
#[verifier::ext_equal]
pub struct JsonExclusionModel {
    pub requested: Seq<char>,
    pub canonical: Seq<char>,
    pub dev: u64,
    pub ino: u64,
}

impl View for JsonExclusion {
    type V = JsonExclusionModel;

    open spec fn view(&self) -> JsonExclusionModel {
        JsonExclusionModel {
            requested: self.requested@,
            canonical: self.canonical@,
            dev: self.dev,
            ino: self.ino,
        }
    }
}

/// A measurement, as data.
#[derive(Debug, PartialEq, Eq)]
pub struct JsonSummary {
    pub landlock_abi: String,
    pub scan: ScanStats,
    pub timings: TimingSummary,
    pub excluded: Vec<JsonExclusion>,
    pub probes: Vec<ProbeSummary>,
}

/// What such data stands for.
#[verifier::ext_equal]
pub struct JsonSummaryModel {
    pub landlock_abi: Seq<char>,
    pub scan: ScanStats,
    pub timings: TimingSummary,
    pub excluded: Seq<JsonExclusionModel>,
    pub probes: Seq<SummaryModel>,
}

impl View for JsonSummary {
    type V = JsonSummaryModel;

    open spec fn view(&self) -> JsonSummaryModel {
        JsonSummaryModel {
            landlock_abi: self.landlock_abi@,
            scan: self.scan,
            timings: self.timings,
            excluded: text::views(self.excluded@),
            probes: text::views(self.probes@),
        }
    }
}

/// An excluded binary as data.
pub open spec fn exclusion_data(entry: ExclusionModel) -> JsonExclusionModel {
    JsonExclusionModel {
        requested: paths::shown(entry.requested),
        canonical: paths::shown(entry.canonical),
        dev: entry.id.dev,
        ino: entry.id.ino,
    }
}

/// A measurement as data.
pub open spec fn json_data(
    abi: i32,
    scan: ScanModel,
    timings: TimingSummary,
    probes: Seq<SummaryModel>,
) -> JsonSummaryModel {
    JsonSummaryModel {
        landlock_abi: abi_name(abi),
        scan: scan.stats,
        timings,
        excluded: scan.excluded.map_values(|entry: ExclusionModel| exclusion_data(entry)),
        probes,
    }
}

/// Reports a measurement as data, ready to be written out.
pub fn print_json(
    abi: i32,
    scan: &ScanOutput,
    timings: TimingSummary,
    probes: Vec<ProbeSummary>,
) -> (r: JsonSummary)
    ensures
        r@ == json_data(abi, scan@, timings, text::views(probes@)),
{
    let mut excluded: Vec<JsonExclusion> = Vec::new();
    for i in 0..scan.excluded.len()
        invariant
            excluded@.len() == i,
            forall|j: int|
                0 <= j < i ==> (#[trigger] excluded@[j])@ == exclusion_data(scan.excluded@[j]@),
    {
        let entry = &scan.excluded[i];
        excluded.push(
            JsonExclusion {
                requested: entry.requested.display(),
                canonical: entry.canonical.display(),
                dev: entry.id.dev,
                ino: entry.id.ino,
            },
        );
    }
    assert(text::views(excluded@) =~= scan@.excluded.map_values(
        |entry: ExclusionModel| exclusion_data(entry),
    ));
    JsonSummary { landlock_abi: abi_text(abi), scan: scan.stats, timings, excluded, probes }
}

} // verus!
