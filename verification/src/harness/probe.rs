//! Probing whether files can be executed.
use vstd::prelude::*;

use crate::paths;
use crate::paths::FilePath;
use crate::text;

verus! {

/// What a probe should come to.
#[derive(Debug, Clone, Copy, PartialEq, Eq, Structural)]
pub enum ProbeExpectation {
    Allow,
    Deny,
}

/// What a probe came to.
#[derive(Debug, PartialEq, Eq)]
pub enum ProbeOutcome {
    /// The file was executed, and exited.
    Exited { code: Option<i32> },
    /// The file could not be executed for want of permission.
    SpawnDenied,
    /// The file could not be executed.
    SpawnError { message: String },
}

/// What an outcome stands for.
#[verifier::ext_equal]
pub enum ProbeModel {
    Exited { code: Option<i32> },
    SpawnDenied,
    SpawnError { message: Seq<char> },
}

impl View for ProbeOutcome {
    type V = ProbeModel;

    open spec fn view(&self) -> ProbeModel {
        match self {
            ProbeOutcome::Exited { code } => ProbeModel::Exited { code: *code },
            ProbeOutcome::SpawnDenied => ProbeModel::SpawnDenied,
            ProbeOutcome::SpawnError { message } => ProbeModel::SpawnError { message: message@ },
        }
    }
}

impl Clone for ProbeOutcome {
    fn clone(&self) -> (r: Self)
        ensures
            r@ == self@,
    {
        match self {
            ProbeOutcome::Exited { code } => ProbeOutcome::Exited { code: *code },
            ProbeOutcome::SpawnDenied => ProbeOutcome::SpawnDenied,
            ProbeOutcome::SpawnError { message } => ProbeOutcome::SpawnError {
                message: message.clone(),
            },
        }
    }
}

/// A probe, and whether it came to what it should.
#[derive(Debug, PartialEq, Eq)]
pub struct ProbeSummary {
    pub path: String,
    pub expected: ProbeExpectation,
    pub outcome: ProbeOutcome,
    pub matched: bool,
}

/// What a summary stands for.
#[verifier::ext_equal]
pub struct SummaryModel {
    pub path: Seq<char>,
    pub expected: ProbeExpectation,
    pub outcome: ProbeModel,
    pub matched: bool,
}

impl View for ProbeSummary {
    type V = SummaryModel;

    open spec fn view(&self) -> SummaryModel {
        SummaryModel {
            path: self.path@,
            expected: self.expected,
            outcome: self.outcome@,
            matched: self.matched,
        }
    }
}

impl Clone for ProbeSummary {
    fn clone(&self) -> (r: Self)
        ensures
            r@ == self@,
    {
        ProbeSummary {
            path: self.path.clone(),
            expected: self.expected,
            outcome: self.outcome.clone(),
            matched: self.matched,
        }
    }
}

/// A file that should be executed was; one that should not was refused, which
/// some systems say in words only.
pub open spec fn as_expected(expected: ProbeExpectation, outcome: ProbeModel) -> bool {
    match (expected, outcome) {
        (ProbeExpectation::Allow, ProbeModel::Exited { .. }) => true,
        (ProbeExpectation::Deny, ProbeModel::SpawnDenied) => true,
        (ProbeExpectation::Deny, ProbeModel::SpawnError { message }) => text::occurs(
            message,
            "Permission denied"@,
        ),
        _ => false,
    }
}

/// The summary of a probe.
pub open spec fn summary(
    path: Seq<u8>,
    expected: ProbeExpectation,
    outcome: ProbeModel,
) -> SummaryModel {
    SummaryModel {
        path: paths::shown(path),
        expected,
        outcome,
        matched: as_expected(expected, outcome),
    }
}

/// Judges what executing a file came to.
pub fn run_probe(path: &FilePath, expected: ProbeExpectation, outcome: ProbeOutcome) -> (r:
    ProbeSummary)
    ensures
        r@ == summary(path@, expected, outcome@),
{
    let matched = match (&expected, &outcome) {
        (ProbeExpectation::Allow, ProbeOutcome::Exited { .. }) => true,
        (ProbeExpectation::Deny, ProbeOutcome::SpawnDenied) => true,
        (ProbeExpectation::Deny, ProbeOutcome::SpawnError { message }) => text::contains(
            message.as_str(),
            "Permission denied",
        ),
        _ => false,
    };
    ProbeSummary { path: path.display(), expected, outcome, matched }
}

/// The summaries of probes that should all come to the same.
pub open spec fn summaries(
    list: Seq<Seq<u8>>,
    expected: ProbeExpectation,
    outcomes: Seq<ProbeModel>,
) -> Seq<SummaryModel> {
    Seq::new(list.len(), |i: int| summary(list[i], expected, outcomes[i]))
}

fn judge(
    list: &Vec<FilePath>,
    expected: ProbeExpectation,
    outcomes: &Vec<ProbeOutcome>,
    probes: &mut Vec<ProbeSummary>,
)
    requires
        outcomes@.len() == list@.len(),
    ensures
        text::views(final(probes)@) == text::views(old(probes)@) + summaries(
            text::views(list@),
            expected,
            text::views(outcomes@),
        ),
{
    let ghost before = text::views(probes@);
    let ghost all = summaries(text::views(list@), expected, text::views(outcomes@));
    assert(before + all.take(0) =~= before);
    for i in 0..list.len()
        invariant
            outcomes@.len() == list@.len(),
            all == summaries(text::views(list@), expected, text::views(outcomes@)),
            text::views(probes@) == before + all.take(i as int),
    {
        let ghost sofar = text::views(probes@);
        let probe = run_probe(&list[i], expected, outcomes[i].clone());
        assert(probe@ == all[i as int]);
        probes.push(probe);
        assert(text::views(probes@) =~= sofar.push(all[i as int]));
        assert(all.take(i + 1) =~= all.take(i as int).push(all[i as int]));
    }
    assert(all.take(all.len() as int) =~= all);
}

/// Judges probes: first those that should be allowed, then those that should be
/// denied. The outcomes say what executing each file came to.
pub fn run_probes(
    allow: &Vec<FilePath>,
    deny: &Vec<FilePath>,
    allow_outcomes: &Vec<ProbeOutcome>,
    deny_outcomes: &Vec<ProbeOutcome>,
) -> (r: Vec<ProbeSummary>)
    requires
        allow_outcomes@.len() == allow@.len(),
        deny_outcomes@.len() == deny@.len(),
    ensures
        text::views(r@) == summaries(
            text::views(allow@),
            ProbeExpectation::Allow,
            text::views(allow_outcomes@),
        ) + summaries(
            text::views(deny@),
            ProbeExpectation::Deny,
            text::views(deny_outcomes@),
        ),
{
    let mut probes: Vec<ProbeSummary> = Vec::new();
    assert(text::views(probes@) =~= Seq::empty());
    judge(allow, ProbeExpectation::Allow, allow_outcomes, &mut probes);
    judge(deny, ProbeExpectation::Deny, deny_outcomes, &mut probes);
    probes
}

/// How an optional number is written for debugging.
pub open spec fn option_number(value: Option<i32>) -> Seq<char> {
    match value {
        Some(n) => "Some("@ + text::signed_decimal(n as int) + ")"@,
        None => "None"@,
    }
}

/// Writes an optional number for debugging.
pub fn option_number_text(value: Option<i32>) -> (r: String)
    ensures
        r@ == option_number(value),
{
    match value {
        Some(n) => text::cat3("Some(", text::signed_decimal_text(n).as_str(), ")"),
        None => "None".to_owned(),
    }
}

/// How an outcome is written for debugging.
pub open spec fn outcome_text(outcome: ProbeModel) -> Seq<char> {
    match outcome {
        ProbeModel::Exited { code } => "Exited { code: "@ + option_number(code) + " }"@,
        ProbeModel::SpawnDenied => "SpawnDenied"@,
        ProbeModel::SpawnError { message } => "SpawnError { message: "@ + text::debug_text(message)
            + " }"@,
    }
}

/// Writes an outcome for debugging.
pub fn outcome_words(outcome: &ProbeOutcome) -> (r: String)
    ensures
        r@ == outcome_text(outcome@),
{
    match outcome {
        ProbeOutcome::Exited { code } => text::cat3(
            "Exited { code: ",
            option_number_text(*code).as_str(),
            " }",
        ),
        ProbeOutcome::SpawnDenied => "SpawnDenied".to_owned(),
        ProbeOutcome::SpawnError { message } => text::cat3(
            "SpawnError { message: ",
            text::quoted(message.as_str()).as_str(),
            " }",
        ),
    }
}

/// How an expectation is written for debugging.
pub open spec fn expectation_text(expected: ProbeExpectation) -> Seq<char> {
    match expected {
        ProbeExpectation::Allow => "Allow"@,
        ProbeExpectation::Deny => "Deny"@,
    }
}

/// Writes an expectation for debugging.
pub fn expectation_words(expected: ProbeExpectation) -> (r: &'static str)
    ensures
        r@ == expectation_text(expected),
{
    match expected {
        ProbeExpectation::Allow => "Allow",
        ProbeExpectation::Deny => "Deny",
    }
}

/// A probe that should be denied never passes because the file was executed.
pub proof fn law_execution_is_no_denial(path: Seq<u8>, code: Option<i32>)
    ensures
        !summary(path, ProbeExpectation::Deny, ProbeModel::Exited { code }).matched,
        summary(path, ProbeExpectation::Allow, ProbeModel::Exited { code }).matched,
        summary(path, ProbeExpectation::Deny, ProbeModel::SpawnDenied).matched,
        !summary(path, ProbeExpectation::Allow, ProbeModel::SpawnDenied).matched,
{
}

} // verus!
