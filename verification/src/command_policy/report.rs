//! Findings of command policy validation.
use vstd::prelude::*;

use crate::error::{ErrorModel, NonoError};
use crate::text;

verus! {

/// How far a configuration has been resolved when it is validated.
#[derive(Debug, Clone, Copy, PartialEq, Eq, Structural)]
pub enum CommandPolicyValidationScope {
    /// Fields are checked one by one; names may still be inherited.
    Syntax,
    /// Inheritance is done, so every reference must resolve.
    Resolved,
}

/// Whether the validated configuration controls any command.
#[derive(Debug, Clone, Copy, PartialEq, Eq, Structural)]
pub enum CommandPolicyActivation {
    Inactive,
    Active,
}

/// One remark about a configuration.
#[derive(Debug, PartialEq, Eq)]
pub struct CommandPolicyFinding {
    pub code: &'static str,
    pub message: String,
}

/// What a finding says.
#[verifier::ext_equal]
pub struct FindingModel {
    pub code: Seq<char>,
    pub message: Seq<char>,
}

impl View for CommandPolicyFinding {
    type V = FindingModel;

    open spec fn view(&self) -> FindingModel {
        FindingModel { code: self.code@, message: self.message@ }
    }
}

/// The finding with the given code and message.
pub open spec fn finding(code: Seq<char>, message: Seq<char>) -> FindingModel {
    FindingModel { code, message }
}

impl CommandPolicyFinding {
    /// A finding with the given code and message.
    pub fn new(code: &'static str, message: String) -> (r: Self)
        ensures
            r@ == finding(code@, message@),
    {
        CommandPolicyFinding { code, message }
    }
}

/// The findings of one validation, by severity.
#[derive(Debug, PartialEq, Eq)]
pub struct CommandPolicyValidationReport {
    pub activation: CommandPolicyActivation,
    pub errors: Vec<CommandPolicyFinding>,
    pub warnings: Vec<CommandPolicyFinding>,
    pub info: Vec<CommandPolicyFinding>,
}

/// What a report says.
#[verifier::ext_equal]
pub struct ReportModel {
    pub activation: CommandPolicyActivation,
    pub errors: Seq<FindingModel>,
    pub warnings: Seq<FindingModel>,
    pub info: Seq<FindingModel>,
}

impl View for CommandPolicyValidationReport {
    type V = ReportModel;

    open spec fn view(&self) -> ReportModel {
        ReportModel {
            activation: self.activation,
            errors: text::views(self.errors@),
            warnings: text::views(self.warnings@),
            info: text::views(self.info@),
        }
    }
}

/// A report without findings on an inactive configuration.
pub open spec fn blank_report() -> ReportModel {
    ReportModel {
        activation: CommandPolicyActivation::Inactive,
        errors: Seq::empty(),
        warnings: Seq::empty(),
        info: Seq::empty(),
    }
}

impl ReportModel {
    /// This report with further errors and warnings.
    pub open spec fn plus(self, errors: Seq<FindingModel>, warnings: Seq<FindingModel>) -> Self {
        ReportModel {
            errors: self.errors + errors,
            warnings: self.warnings + warnings,
            ..self
        }
    }

    /// This report with further errors.
    pub open spec fn plus_errors(self, errors: Seq<FindingModel>) -> Self {
        ReportModel { errors: self.errors + errors, ..self }
    }
}

/// Findings that are added in two goes are added in one.
pub proof fn lemma_plus_plus(
    report: ReportModel,
    e1: Seq<FindingModel>,
    w1: Seq<FindingModel>,
    e2: Seq<FindingModel>,
    w2: Seq<FindingModel>,
)
    ensures
        report.plus(e1, w1).plus(e2, w2) == report.plus(e1 + e2, w1 + w2),
{
    assert(report.plus(e1, w1).plus(e2, w2) =~= report.plus(e1 + e2, w1 + w2));
}

/// Errors alone are errors without warnings.
pub proof fn lemma_plus_errors(report: ReportModel, errors: Seq<FindingModel>)
    ensures
        report.plus_errors(errors) == report.plus(errors, Seq::empty()),
        report.plus(Seq::empty(), Seq::empty()) == report,
{
    assert(report.plus_errors(errors) =~= report.plus(errors, Seq::empty()));
    assert(report.plus(Seq::empty(), Seq::empty()) =~= report);
}

/// A finding as one line of text.
pub open spec fn finding_line(finding: FindingModel) -> Seq<char> {
    finding.code + ": "@ + finding.message
}

/// Success without errors, else one error that lists them all.
pub open spec fn report_result(report: ReportModel) -> Result<(), ErrorModel> {
    if report.errors.len() == 0 {
        Ok(())
    } else {
        Err(
            ErrorModel::ProfileParse(
                "invalid command_policies: "@ + text::joined(
                    report.errors.map_values(|f: FindingModel| finding_line(f)),
                    "; "@,
                ),
            ),
        )
    }
}

impl Default for CommandPolicyValidationReport {
    fn default() -> (r: Self)
        ensures
            r@ == blank_report(),
    {
        let r = CommandPolicyValidationReport {
            activation: CommandPolicyActivation::Inactive,
            errors: Vec::new(),
            warnings: Vec::new(),
            info: Vec::new(),
        };
        assert(r@ =~= blank_report());
        r
    }
}

impl CommandPolicyValidationReport {
    /// Tells whether the report is free of errors.
    pub fn is_ok(&self) -> (r: bool)
        ensures
            r == (self@.errors.len() == 0),
    {
        self.errors.len() == 0
    }

    /// Turns the report into success, or into one error that lists every
    /// error finding.
    pub fn into_result(self) -> (r: Result<(), NonoError>)
        ensures
            crate::error::result_view(r) == report_result(self@),
    {
        if self.errors.len() == 0 {
            return Ok(());
        }
        let mut lines: Vec<String> = Vec::new();
        for i in 0..self.errors.len()
            invariant
                lines@.len() == i,
                forall|j: int| 0 <= j < i ==> #[trigger] lines@[j]@ == finding_line(self.errors@[j]@),
        {
            lines.push(text::cat3(self.errors[i].code, ": ", self.errors[i].message.as_str()));
        }
        assert(text::texts(lines@) =~= self@.errors.map_values(|f: FindingModel| finding_line(f)));
        Err(
            NonoError::ProfileParse(
                text::cat2("invalid command_policies: ", text::join_texts(&lines, "; ").as_str()),
            ),
        )
    }

    /// Adds an error.
    pub fn error(&mut self, code: &'static str, message: String)
        ensures
            final(self)@ == old(self)@.plus_errors(seq![finding(code@, message@)]),
    {
        let ghost before = self.errors@;
        self.errors.push(CommandPolicyFinding::new(code, message));
        assert(text::views(self.errors@) =~= text::views(before) + seq![finding(code@, message@)]);
    }

    /// Adds a warning.
    pub fn warning(&mut self, code: &'static str, message: String)
        ensures
            final(self)@ == old(self)@.plus(Seq::empty(), seq![finding(code@, message@)]),
    {
        let ghost before = self.warnings@;
        self.warnings.push(CommandPolicyFinding::new(code, message));
        assert(text::views(self.warnings@) =~= text::views(before) + seq![
            finding(code@, message@),
        ]);
    }

    /// Adds a remark.
    pub fn info(&mut self, code: &'static str, message: String)
        ensures
            final(self)@ == (ReportModel {
                info: old(self)@.info.push(finding(code@, message@)),
                ..old(self)@
            }),
    {
        let ghost before = self.info@;
        self.info.push(CommandPolicyFinding::new(code, message));
        assert(text::views(self.info@) =~= text::views(before).push(finding(code@, message@)));
    }
}

} // verus!
