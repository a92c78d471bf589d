//! The order of a measurement.
//!
//! A measurement scans, may build the rules for what it found, may restrict this
//! process by them and probe the result, and reports. Each phase is work for the
//! caller; what its outcome leads to is decided here.
use vstd::prelude::*;

use crate::error::{ErrorModel, NonoError};
use crate::harness::collect::{ScanModel, ScanOutput};
use crate::harness::probe::{ProbeSummary, SummaryModel};
use crate::harness::roles;
use crate::harness::roles::{Mode, ModeFlags};
use crate::harness::rules;
use crate::harness::rules::{ExtraRule, RuleModel};
use crate::harness::summary;
use crate::harness::summary::{JsonSummary, TimingSummary};
use crate::text;

verus! {

/// How far a measurement goes.
#[derive(Debug, Clone, Copy, PartialEq, Eq, Structural)]
pub struct Extent {
    /// The rules are built.
    pub build: bool,
    /// This process is restricted by the rules, and probed. There is no
    /// restricting without rules.
    pub apply: bool,
}

/// What a measurement found. Times are in milliseconds.
#[derive(Debug, PartialEq, Eq)]
pub struct Measured {
    pub abi: i32,
    pub scan: ScanOutput,
    pub scan_ms: u128,
    /// How long it took to build the rules, if they were built.
    pub build_ms: Option<u128>,
    /// How long it took to restrict this process, if it was restricted.
    pub restrict_ms: Option<u128>,
    pub probes: Vec<ProbeSummary>,
}

/// What such findings stand for.
#[verifier::ext_equal]
pub struct MeasuredModel {
    pub abi: i32,
    pub scan: ScanModel,
    pub scan_ms: u128,
    pub build_ms: Option<u128>,
    pub restrict_ms: Option<u128>,
    pub probes: Seq<SummaryModel>,
}

impl View for Measured {
    type V = MeasuredModel;

    open spec fn view(&self) -> MeasuredModel {
        MeasuredModel {
            abi: self.abi,
            scan: self.scan@,
            scan_ms: self.scan_ms,
            build_ms: self.build_ms,
            restrict_ms: self.restrict_ms,
            probes: text::views(self.probes@),
        }
    }
}

/// What is to be done next, or how the measurement ended.
#[derive(Debug, PartialEq, Eq)]
pub enum MeasurePhase {
    /// Find out which version of the kernel interface there is.
    DetectAbi,
    /// Scan the inputs.
    Scan { abi: i32 },
    /// Make the rules known to the kernel.
    Build { found: Measured, rules: Vec<ExtraRule> },
    /// Restrict this process by the rules.
    Restrict(Measured),
    /// Try to execute files.
    Probe(Measured),
    /// Tell the user.
    Report(Measured),
    /// All is told.
    Ended,
    /// The measurement failed.
    Failed(NonoError),
}

/// What a phase stands for.
#[verifier::ext_equal]
pub enum PhaseModel {
    DetectAbi,
    Scan { abi: i32 },
    Build { found: MeasuredModel, rules: Seq<RuleModel> },
    Restrict(MeasuredModel),
    Probe(MeasuredModel),
    Report(MeasuredModel),
    Ended,
    Failed(ErrorModel),
}

impl View for MeasurePhase {
    type V = PhaseModel;

    open spec fn view(&self) -> PhaseModel {
        match self {
            MeasurePhase::DetectAbi => PhaseModel::DetectAbi,
            MeasurePhase::Scan { abi } => PhaseModel::Scan { abi: *abi },
            MeasurePhase::Build { found, rules } => PhaseModel::Build {
                found: found@,
                rules: text::views(rules@),
            },
            MeasurePhase::Restrict(found) => PhaseModel::Restrict(found@),
            MeasurePhase::Probe(found) => PhaseModel::Probe(found@),
            MeasurePhase::Report(found) => PhaseModel::Report(found@),
            MeasurePhase::Ended => PhaseModel::Ended,
            MeasurePhase::Failed(error) => PhaseModel::Failed(error@),
        }
    }
}

/// What came of a phase.
#[derive(Debug, PartialEq, Eq)]
pub enum MeasureReply {
    Abi(i32),
    Scanned { scan: ScanOutput, ms: u128 },
    Built { ms: u128 },
    Restricted { ms: u128 },
    Probed(Vec<ProbeSummary>),
    Reported,
    /// The work failed.
    Refused(NonoError),
}

/// What a reply stands for.
#[verifier::ext_equal]
pub enum ReplyModel {
    Abi(i32),
    Scanned { scan: ScanModel, ms: u128 },
    Built { ms: u128 },
    Restricted { ms: u128 },
    Probed(Seq<SummaryModel>),
    Reported,
    Refused(ErrorModel),
}

impl View for MeasureReply {
    type V = ReplyModel;

    open spec fn view(&self) -> ReplyModel {
        match self {
            MeasureReply::Abi(abi) => ReplyModel::Abi(*abi),
            MeasureReply::Scanned { scan, ms } => ReplyModel::Scanned { scan: scan@, ms: *ms },
            MeasureReply::Built { ms } => ReplyModel::Built { ms: *ms },
            MeasureReply::Restricted { ms } => ReplyModel::Restricted { ms: *ms },
            MeasureReply::Probed(probes) => ReplyModel::Probed(text::views(probes@)),
            MeasureReply::Reported => ReplyModel::Reported,
            MeasureReply::Refused(error) => ReplyModel::Refused(error@),
        }
    }
}

/// What is known after the scan.
pub open spec fn after_scan(abi: i32, scan: ScanModel, ms: u128) -> MeasuredModel {
    MeasuredModel {
        abi,
        scan,
        scan_ms: ms,
        build_ms: None,
        restrict_ms: None,
        probes: Seq::empty(),
    }
}

/// The phase after a reply. Rules are built where that was asked for, or where
/// they are to be applied. A failure ends the measurement, and a reply that was
/// not asked for changes nothing.
pub open spec fn next_phase(extent: Extent, phase: PhaseModel, reply: ReplyModel) -> PhaseModel {
    match (phase, reply) {
        (PhaseModel::Ended, _) => phase,
        (PhaseModel::Failed(_), _) => phase,
        (_, ReplyModel::Refused(error)) => PhaseModel::Failed(error),
        (PhaseModel::DetectAbi, ReplyModel::Abi(abi)) => PhaseModel::Scan { abi },
        (PhaseModel::Scan { abi }, ReplyModel::Scanned { scan, ms }) => if extent.build
            || extent.apply {
            PhaseModel::Build {
                found: after_scan(abi, scan, ms),
                rules: rules::planned_rules(abi, scan, Seq::empty()),
            }
        } else {
            PhaseModel::Report(after_scan(abi, scan, ms))
        },
        (PhaseModel::Build { found, .. }, ReplyModel::Built { ms }) => {
            let found = MeasuredModel { build_ms: Some(ms), ..found };
            if extent.apply {
                PhaseModel::Restrict(found)
            } else {
                PhaseModel::Report(found)
            }
        },
        (PhaseModel::Restrict(found), ReplyModel::Restricted { ms }) => PhaseModel::Probe(
            MeasuredModel { restrict_ms: Some(ms), ..found },
        ),
        (PhaseModel::Probe(found), ReplyModel::Probed(probes)) => PhaseModel::Report(
            MeasuredModel { probes, ..found },
        ),
        (PhaseModel::Report(_), ReplyModel::Reported) => PhaseModel::Ended,
        _ => phase,
    }
}

fn scanned(extent: Extent, abi: i32, scan: ScanOutput, ms: u128) -> (r: MeasurePhase)
    ensures
        r@ == next_phase(
            extent,
            PhaseModel::Scan { abi },
            ReplyModel::Scanned { scan: scan@, ms },
        ),
{
    let probes: Vec<ProbeSummary> = Vec::new();
    assert(text::views(probes@) =~= Seq::empty());
    if extent.build || extent.apply {
        let planned = rules::build_ruleset(abi, &scan);
        let found = Measured {
            abi,
            scan,
            scan_ms: ms,
            build_ms: None,
            restrict_ms: None,
            probes,
        };
        MeasurePhase::Build { found, rules: planned }
    } else {
        MeasurePhase::Report(
            Measured { abi, scan, scan_ms: ms, build_ms: None, restrict_ms: None, probes },
        )
    }
}

/// Takes a measurement one phase further.
pub fn advance_measurement(extent: Extent, phase: MeasurePhase, reply: MeasureReply) -> (r:
    MeasurePhase)
    ensures
        r@ == next_phase(extent, phase@, reply@),
{
    match (phase, reply) {
        (MeasurePhase::Ended, _) => MeasurePhase::Ended,
        (MeasurePhase::Failed(error), _) => MeasurePhase::Failed(error),
        (_, MeasureReply::Refused(error)) => MeasurePhase::Failed(error),
        (MeasurePhase::DetectAbi, MeasureReply::Abi(abi)) => MeasurePhase::Scan { abi },
        (MeasurePhase::Scan { abi }, MeasureReply::Scanned { scan, ms }) => scanned(
            extent,
            abi,
            scan,
            ms,
        ),
        (MeasurePhase::Build { found, .. }, MeasureReply::Built { ms }) => {
            let found = Measured { build_ms: Some(ms), ..found };
            if extent.apply {
                MeasurePhase::Restrict(found)
            } else {
                MeasurePhase::Report(found)
            }
        },
        (MeasurePhase::Restrict(found), MeasureReply::Restricted { ms }) => MeasurePhase::Probe(
            Measured { restrict_ms: Some(ms), ..found },
        ),
        (MeasurePhase::Probe(found), MeasureReply::Probed(probes)) => MeasurePhase::Report(
            Measured { probes, ..found },
        ),
        (MeasurePhase::Report(_), MeasureReply::Reported) => MeasurePhase::Ended,
        (phase, _) => phase,
    }
}

// ---------------------------------------------------------------------------
// What is reported
// ---------------------------------------------------------------------------

/// The times of a measurement that took `total_ms` in all.
pub open spec fn timings_of(found: MeasuredModel, total_ms: u128) -> TimingSummary {
    TimingSummary {
        scan_ms: found.scan_ms,
        ruleset_build_ms: found.build_ms,
        restrict_self_ms: found.restrict_ms,
        total_ms,
    }
}

/// This process was restricted.
pub open spec fn applied(found: MeasuredModel) -> bool {
    found.restrict_ms is Some
}

impl Measured {
    /// The times of the measurement.
    pub fn timings(&self, total_ms: u128) -> (r: TimingSummary)
        ensures
            r == timings_of(self@, total_ms),
    {
        TimingSummary {
            scan_ms: self.scan_ms,
            ruleset_build_ms: self.build_ms,
            restrict_self_ms: self.restrict_ms,
            total_ms,
        }
    }

    /// The measurement in words.
    pub fn in_words(&self, total_ms: u128) -> (r: Vec<String>)
        ensures
            text::texts(r@) == summary::human_lines(
                self@.abi,
                self@.scan,
                timings_of(self@, total_ms),
                self@.probes,
                applied(self@),
            ),
    {
        summary::print_human(
            self.abi,
            &self.scan,
            &self.timings(total_ms),
            &self.probes,
            self.restrict_ms.is_some(),
        )
    }

    /// The measurement as data.
    pub fn as_data(&self, total_ms: u128) -> (r: JsonSummary)
        ensures
            r@ == summary::json_data(
                self@.abi,
                self@.scan,
                timings_of(self@, total_ms),
                self@.probes,
            ),
    {
        let mut probes: Vec<ProbeSummary> = Vec::new();
        for i in 0..self.probes.len()
            invariant
                probes@.len() == i,
                forall|j: int| 0 <= j < i ==> (#[trigger] probes@[j])@ == self.probes@[j]@,
        {
            probes.push(self.probes[i].clone());
        }
        assert(text::views(probes@) =~= text::views(self.probes@));
        summary::print_json(self.abi, &self.scan, self.timings(total_ms), probes)
    }
}

// ---------------------------------------------------------------------------
// What holds of every measurement
// ---------------------------------------------------------------------------

/// The phase that is reached after some replies.
pub open spec fn reached(extent: Extent, replies: Seq<ReplyModel>) -> PhaseModel
    decreases replies.len(),
{
    if replies.len() == 0 {
        PhaseModel::DetectAbi
    } else {
        next_phase(extent, reached(extent, replies.drop_last()), replies.last())
    }
}

/// What a phase knows is what the phases before it found.
pub open spec fn orderly(extent: Extent, phase: PhaseModel) -> bool {
    match phase {
        PhaseModel::Build { found, rules } => {
            &&& extent.build || extent.apply
            &&& rules == rules::planned_rules(found.abi, found.scan, Seq::empty())
            &&& found == after_scan(found.abi, found.scan, found.scan_ms)
        },
        PhaseModel::Restrict(found) => {
            &&& extent.apply
            &&& found.build_ms is Some
            &&& found.restrict_ms is None
            &&& found.probes.len() == 0
        },
        PhaseModel::Probe(found) => {
            &&& extent.apply
            &&& found.build_ms is Some
            &&& found.restrict_ms is Some
            &&& found.probes.len() == 0
        },
        PhaseModel::Report(found) => {
            &&& found.build_ms is Some <==> extent.build || extent.apply
            &&& found.restrict_ms is Some <==> extent.apply
            &&& !extent.apply ==> found.probes.len() == 0
        },
        _ => true,
    }
}

/// Whatever the replies, a measurement goes exactly as far as it was asked to:
/// rules are built before this process is restricted by them, it is restricted
/// only where that was asked for, and a report tells of rules that were built
/// exactly where that was asked for, and of a restriction likewise.
pub proof fn law_measurements_are_orderly(extent: Extent, replies: Seq<ReplyModel>)
    ensures
        orderly(extent, reached(extent, replies)),
    decreases replies.len(),
{
    if replies.len() > 0 {
        law_measurements_are_orderly(extent, replies.drop_last());
    }
}

/// A dry run stops after scanning and building the rules: this process is never
/// restricted or probed, and a report tells how long the rules took to build
/// and of no restriction.
pub proof fn law_dry_run_builds_and_stops(
    flags: ModeFlags,
    replies: Seq<ReplyModel>,
    total_ms: u128,
)
    requires
        flags.dry_run,
    ensures
        roles::mode_for(flags) matches Mode::Measure { build, apply } ==> {
            let phase = reached(Extent { build, apply }, replies);
            &&& phase !is Restrict
            &&& phase !is Probe
            &&& phase matches PhaseModel::Report(found) ==> {
                &&& timings_of(found, total_ms).ruleset_build_ms is Some
                &&& timings_of(found, total_ms).restrict_self_ms is None
                &&& found.probes.len() == 0
                &&& !applied(found)
            }
        },
{
    if let Mode::Measure { build, apply } = roles::mode_for(flags) {
        law_measurements_are_orderly(Extent { build, apply }, replies);
    }
}

/// A dry run whose work succeeds comes to its end: the rules that it builds are
/// those for what it scanned, and it reports that scan.
pub proof fn law_dry_run_succeeds(
    flags: ModeFlags,
    abi: i32,
    scan: ScanModel,
    scan_ms: u128,
    build_ms: u128,
)
    requires
        flags.dry_run,
    ensures
        roles::mode_for(flags) matches Mode::Measure { build, apply } ==> {
            let extent = Extent { build, apply };
            let scanned = seq![ReplyModel::Abi(abi), ReplyModel::Scanned { scan, ms: scan_ms }];
            let built = scanned.push(ReplyModel::Built { ms: build_ms });
            &&& reached(extent, scanned) == (PhaseModel::Build {
                found: after_scan(abi, scan, scan_ms),
                rules: rules::planned_rules(abi, scan, Seq::empty()),
            })
            &&& reached(extent, built) == PhaseModel::Report(
                MeasuredModel { build_ms: Some(build_ms), ..after_scan(abi, scan, scan_ms) },
            )
            &&& reached(extent, built.push(ReplyModel::Reported)) is Ended
        },
{
    if let Mode::Measure { build, apply } = roles::mode_for(flags) {
        let extent = Extent { build, apply };
        let first = seq![ReplyModel::Abi(abi)];
        let scanned = seq![ReplyModel::Abi(abi), ReplyModel::Scanned { scan, ms: scan_ms }];
        let built = scanned.push(ReplyModel::Built { ms: build_ms });
        assert(first.drop_last() =~= Seq::empty());
        assert(reached(extent, first.drop_last()) is DetectAbi);
        assert(reached(extent, first) == (PhaseModel::Scan { abi }));
        assert(scanned.drop_last() =~= first);
        assert(built.drop_last() =~= scanned);
        assert(built.push(ReplyModel::Reported).drop_last() =~= built);
    }
}

/// How many phases lie before an end at most.
pub open spec fn phases_left(phase: PhaseModel) -> nat {
    match phase {
        PhaseModel::DetectAbi => 6,
        PhaseModel::Scan { .. } => 5,
        PhaseModel::Build { .. } => 4,
        PhaseModel::Restrict(_) => 3,
        PhaseModel::Probe(_) => 2,
        PhaseModel::Report(_) => 1,
        PhaseModel::Ended => 0,
        PhaseModel::Failed(_) => 0,
    }
}

/// Every reply that a phase asks for takes a measurement closer to its end, and
/// so does every failure; no other changes anything.
pub proof fn law_measurements_end(extent: Extent, phase: PhaseModel, reply: ReplyModel)
    ensures
        next_phase(extent, phase, reply) == phase || phases_left(next_phase(extent, phase, reply))
            < phases_left(phase),
{
}

} // verus!
