//! How legacy lists of blocked commands interact with command policies.
use vstd::prelude::*;

use crate::command_policy::report;
use crate::command_policy::report::{
    CommandPolicyActivation, CommandPolicyValidationReport, FindingModel, ReportModel,
};
use crate::command_policy::validate;
use crate::command_policy::{CommandModel, CommandPoliciesConfig, PoliciesModel};
use crate::text;

verus! {

/// A blocked command that is neither allowed again nor policy-controlled is
/// denied.
pub open spec fn denied_only(
    name: Seq<char>,
    allowed: Seq<Seq<char>>,
    commands: Map<Seq<char>, CommandModel>,
) -> bool {
    !allowed.contains(name) && !commands.dom().contains(name)
}

/// The set of blocked commands that end up denied.
pub open spec fn deny_only(
    blocked: Seq<Seq<char>>,
    allowed: Seq<Seq<char>>,
    commands: Map<Seq<char>, CommandModel>,
) -> Set<Seq<char>> {
    blocked.to_set().filter(|name: Seq<char>| denied_only(name, allowed, commands))
}

/// The check on one blocked command.
pub open spec fn blocked_check(
    allowed: Seq<Seq<char>>,
    commands: Map<Seq<char>, CommandModel>,
) -> spec_fn(Seq<char>) -> Seq<FindingModel> {
    |name: Seq<char>|
        validate::identifier_errors("legacy blocked command"@, name) + validate::when(
            !allowed.contains(name) && commands.dom().contains(name),
            report::finding(
                "policy_blocked_command_conflict"@,
                "command '"@ + name
                    + "' is both policy-controlled and legacy blocked; use allowed_commands to override the legacy blocked entry before ETI command-control resolution"@,
            ),
        )
}

/// What validation says of the legacy lists beside a configuration.
pub open spec fn legacy_validation(
    config: Option<PoliciesModel>,
    blocked: Seq<Seq<char>>,
    allowed: Seq<Seq<char>>,
) -> ReportModel {
    match config {
        None => report::blank_report(),
        Some(config) => if !config.active() {
            report::blank_report()
        } else {
            let denied = deny_only(blocked, allowed, config.commands);
            ReportModel {
                activation: CommandPolicyActivation::Active,
                errors: validate::identifier_list_errors("security.allowed_commands"@, allowed)
                    + blocked.flat_map(blocked_check(allowed, config.commands)),
                warnings: Seq::empty(),
                info: validate::when(
                    denied.len() > 0,
                    report::finding(
                        "legacy_blocked_folded"@,
                        "folded "@ + text::decimal(denied.len())
                            + " legacy blocked command(s) into active ETI as deny-only entries"@,
                    ),
                ),
            }
        },
    }
}

/// Reports the errors of the blocked commands, and gathers those that end up
/// denied, each once.
fn validate_blocked(
    config: &CommandPoliciesConfig,
    legacy_blocked_commands: &Vec<String>,
    allowed_commands: &Vec<String>,
    report: &mut CommandPolicyValidationReport,
) -> (denied: Vec<String>)
    ensures
        final(report)@ == old(report)@.plus_errors(
            text::texts(legacy_blocked_commands@).flat_map(
                blocked_check(text::texts(allowed_commands@), config@.commands),
            ),
        ),
        text::texts(denied@).no_duplicates(),
        text::texts(denied@).to_set() == deny_only(
            text::texts(legacy_blocked_commands@),
            text::texts(allowed_commands@),
            config@.commands,
        ),
{
    let ghost blocked = text::texts(legacy_blocked_commands@);
    let ghost allowed = text::texts(allowed_commands@);
    let ghost check = blocked_check(allowed, config@.commands);
    proof {
        validate::lemma_nothing_yet(blocked, check);
    }
    let mut denied: Vec<String> = Vec::new();
    for i in 0..legacy_blocked_commands.len()
        invariant
            blocked == text::texts(legacy_blocked_commands@),
            allowed == text::texts(allowed_commands@),
            check == blocked_check(allowed, config@.commands),
            report@ == old(report)@.plus_errors(blocked.take(i as int).flat_map(check)),
            text::texts(denied@).no_duplicates(),
            forall|name: Seq<char>| #[trigger]
                text::texts(denied@).contains(name) <==> blocked.take(i as int).contains(name)
                    && denied_only(name, allowed, config@.commands),
    {
        let name = legacy_blocked_commands[i].as_str();
        validate::validate_identifier("legacy blocked command", name, report);
        let is_allowed = text::contains_text(allowed_commands, name);
        let is_controlled = config.commands.contains_key(name);
        if !is_allowed && is_controlled {
            report.error(
                "policy_blocked_command_conflict",
                text::cat3(
                    "command '",
                    name,
                    "' is both policy-controlled and legacy blocked; use allowed_commands to override the legacy blocked entry before ETI command-control resolution",
                ),
            );
        }
        let ghost before = text::texts(denied@);
        if !is_allowed && !is_controlled && !text::contains_text(&denied, name) {
            denied.push(name.to_owned());
            assert(text::texts(denied@) =~= before.push(name@));
        }
        proof {
            blocked.lemma_flat_map_take_append(check, i as int);
            assert(blocked[i as int] == name@);
            assert(blocked.take(i + 1) =~= blocked.take(i as int).push(name@));
            assert forall|other: Seq<char>| #[trigger]
                text::texts(denied@).contains(other) <==> blocked.take(i + 1).contains(other)
                    && denied_only(other, allowed, config@.commands) by {
                vstd::seq_lib::lemma_seq_contains_after_push(before, name@, other);
                vstd::seq_lib::lemma_seq_contains_after_push(
                    blocked.take(i as int),
                    name@,
                    other,
                );
                assert(before.contains(other) <==> blocked.take(i as int).contains(other)
                    && denied_only(other, allowed, config@.commands));
            }
        }
    }
    proof {
        validate::lemma_all_gathered(blocked, check);
        assert(blocked.take(blocked.len() as int) =~= blocked);
        assert(text::texts(denied@).to_set() =~= deny_only(blocked, allowed, config@.commands));
    }
    denied
}

/// Validates legacy lists of blocked and allowed commands against the command
/// policies of a profile.
pub fn validate_legacy_blocked_command_interactions(
    config: Option<&CommandPoliciesConfig>,
    legacy_blocked_commands: &Vec<String>,
    allowed_commands: &Vec<String>,
) -> (r: CommandPolicyValidationReport)
    ensures
        r@ == legacy_validation(
            match config {
                Some(config) => Some(config@),
                None => None,
            },
            text::texts(legacy_blocked_commands@),
            text::texts(allowed_commands@),
        ),
{
    let mut report = CommandPolicyValidationReport::default();
    let config = match config {
        Some(config) => config,
        None => {
            return report;
        },
    };
    if !config.is_active() {
        return report;
    }
    report.activation = CommandPolicyActivation::Active;
    validate::validate_identifier_list(
        "security.allowed_commands",
        allowed_commands,
        &mut report,
    );
    let denied = validate_blocked(config, legacy_blocked_commands, allowed_commands, &mut report);
    proof {
        text::texts(denied@).unique_seq_to_set();
    }
    if denied.len() > 0 {
        report.info(
            "legacy_blocked_folded",
            text::cat3(
                "folded ",
                text::decimal_text(denied.len() as u128).as_str(),
                " legacy blocked command(s) into active ETI as deny-only entries",
            ),
        );
    }
    report
}

} // verus!
